//! Request methods and their decoding from text.

use vstd::prelude::*;
use vstd::string::StrSliceExecFns;
use vstd::string::StringExecFns;

verus! {

/// The methods that a route can be declared for.
#[derive(PartialEq, Eq, Structural, Clone, Copy, Debug)]
pub enum HttpMethod {
    GET,
    POST,
}

/// A text that names no method. `name` is the text in upper case.
#[derive(Debug)]
pub struct InvalidMethod {
    pub name: String,
}

/// The upper-case form of `text`, as `str::to_uppercase` of the standard
/// library gives it.
pub uninterp spec fn uppercase(text: Seq<char>) -> Seq<char>;

/// The method whose upper-case name is `upper`, if there is one.
pub open spec fn method_named(upper: Seq<char>) -> Option<HttpMethod> {
    if upper == HttpMethod::GET.name() {
        Some(HttpMethod::GET)
    } else if upper == HttpMethod::POST.name() {
        Some(HttpMethod::POST)
    } else {
        None
    }
}

/// The words that open the message of an [`InvalidMethod`].
pub open spec fn invalid_method_prefix() -> Seq<char> {
    "Invalid HTTP method: "@
}

/// Calls `str::to_uppercase`. Nothing is proved of it: its result is only
/// given the name [`uppercase`], which rests on the conversion being a
/// function of the text alone (it follows Unicode's case mappings and no
/// locale).
#[verifier::external_body]
fn to_uppercase(text: &str) -> (upper: String)
    ensures
        upper@ == uppercase(text@),
{
    text.to_uppercase()
}

impl HttpMethod {
    /// The name of the method as it is written on the wire: upper case.
    pub open spec fn name(self) -> Seq<char> {
        match self {
            HttpMethod::GET => seq!['G', 'E', 'T'],
            HttpMethod::POST => seq!['P', 'O', 'S', 'T'],
        }
    }

    /// The name of the method as it is written on the wire.
    pub fn as_str(&self) -> (name: &'static str)
        ensures
            name@ == self.name(),
    {
        proof {
            reveal_strlit("GET");
            reveal_strlit("POST");
        }
        match self {
            HttpMethod::GET => {
                assert("GET"@ =~= HttpMethod::GET.name());
                "GET"
            },
            HttpMethod::POST => {
                assert("POST"@ =~= HttpMethod::POST.name());
                "POST"
            },
        }
    }

    /// Tells which method a text in upper case names. Any text but the two
    /// names is refused, and handed back in the error.
    pub fn from_uppercase(upper: String) -> (decoded: Result<HttpMethod, InvalidMethod>)
        ensures
            match method_named(upper@) {
                Some(method) => decoded == Ok::<HttpMethod, InvalidMethod>(method),
                None => decoded is Err && decoded->Err_0.name == upper,
            },
    {
        let text: &str = upper.as_str();
        let n: usize = text.unicode_len();
        if n == 3 && text.get_char(0) == 'G' && text.get_char(1) == 'E' && text.get_char(2)
            == 'T' {
            assert(upper@ =~= HttpMethod::GET.name());
            Ok(HttpMethod::GET)
        } else if n == 4 && text.get_char(0) == 'P' && text.get_char(1) == 'O' && text.get_char(2)
            == 'S' && text.get_char(3) == 'T' {
            assert(upper@ =~= HttpMethod::POST.name());
            Ok(HttpMethod::POST)
        } else {
            Err(InvalidMethod { name: upper })
        }
    }

    /// Decodes a method from text without regard to case: the text is put in
    /// upper case and then has to be one of the two names.
    pub fn decode(text: &str) -> (decoded: Result<HttpMethod, InvalidMethod>)
        ensures
            match method_named(uppercase(text@)) {
                Some(method) => decoded == Ok::<HttpMethod, InvalidMethod>(method),
                None => decoded is Err && decoded->Err_0.name@ == uppercase(text@),
            },
    {
        HttpMethod::from_uppercase(to_uppercase(text))
    }
}

impl InvalidMethod {
    /// The message that reports the refused text.
    pub fn message(&self) -> (message: String)
        ensures
            message@ == invalid_method_prefix() + self.name@,
    {
        String::from_str("Invalid HTTP method: ").concat(self.name.as_str())
    }
}

} // verus!
