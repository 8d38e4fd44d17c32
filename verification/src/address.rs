//! Absolute URLs in canonical form.
//!
//! A `Url` stands for one resource. Two texts that name the same resource in
//! different spellings parse to the same canonical serialisation, and that
//! serialisation is all a `Url` holds: URLs are equal exactly when their
//! serialisations are.

use vstd::prelude::*;

verus! {

/// What URL parsing makes of a text: the canonical serialisation of the
/// absolute URL it spells, or the parser's message where it spells none.
pub uninterp spec fn parsed_url(text: Seq<char>) -> Result<Seq<char>, Seq<char>>;

/// Some text parses to the serialisation `form`.
pub open spec fn is_canonical(form: Seq<char>) -> bool {
    exists|text: Seq<char>| #[trigger] parsed_url(text) == Ok::<Seq<char>, Seq<char>>(form)
}

/// An absolute URL, held as its canonical serialisation.
#[derive(Debug)]
pub struct Url {
    form: String,
}

/// The reason a text was not accepted as an absolute URL.
#[derive(Debug, PartialEq, Eq)]
pub struct InvalidUrl {
    pub reason: String,
}

impl View for Url {
    type V = Seq<char>;

    closed spec fn view(&self) -> Seq<char> {
        self.form@
    }
}

/// Calls `url::Url::parse` and hands back the serialisation of the URL it
/// returns, or the text of its error. Trusted: the outcome is the one that
/// `parsed_url` names for this text.
#[verifier::external_body]
fn parse_absolute(text: &str) -> (out: Result<String, String>)
    ensures
        match out {
            Ok(form) => parsed_url(text@) == Ok::<Seq<char>, Seq<char>>(form@),
            Err(reason) => parsed_url(text@) == Err::<Seq<char>, Seq<char>>(reason@),
        },
{
    match url::Url::parse(text) {
        Ok(url) => Ok(String::from(url)),
        Err(error) => Err(error.to_string()),
    }
}

impl Url {
    #[verifier::type_invariant]
    spec fn canonical(self) -> bool {
        is_canonical(self.form@)
    }

    /// Parses an absolute URL. Succeeds exactly on the texts that spell one,
    /// with the canonical serialisation as the URL's value.
    pub fn parse(text: &str) -> (out: Result<Url, InvalidUrl>)
        ensures
            match out {
                Ok(url) => parsed_url(text@) == Ok::<Seq<char>, Seq<char>>(url@),
                Err(error) => parsed_url(text@) == Err::<Seq<char>, Seq<char>>(error.reason@),
            },
    {
        match parse_absolute(text) {
            Ok(form) => Ok(Url { form }),
            Err(reason) => Err(InvalidUrl { reason }),
        }
    }

    /// The canonical serialisation, which some text parses to.
    pub fn as_str(&self) -> (text: &str)
        ensures
            text@ == self@,
            is_canonical(self@),
    {
        proof {
            use_type_invariant(self);
        }
        self.form.as_str()
    }

}

impl Url {
    /// The canonical serialisation, owned.
    pub fn into_string(self) -> (text: String)
        ensures
            text@ == self@,
    {
        self.form
    }
}

impl Clone for Url {
    fn clone(&self) -> (copy: Url)
        ensures
            copy@ == self@,
    {
        proof {
            use_type_invariant(self);
        }
        Url { form: self.form.clone() }
    }
}

impl PartialEq for Url {
    fn eq(&self, other: &Url) -> (same: bool) {
        self.form == other.form
    }
}

impl Eq for Url {}

impl vstd::std_specs::cmp::PartialEqSpecImpl for Url {
    open spec fn obeys_eq_spec() -> bool {
        true
    }

    open spec fn eq_spec(&self, other: &Url) -> bool {
        self@ == other@
    }
}

} // verus!
