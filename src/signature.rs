//! Signatures: an identity together with the time of an action.
use vstd::prelude::*;
use crate::error::Error;
use crate::text::chars_of;

verus! {

/// A character that cannot stand in a signature's name or email.
pub open spec fn is_forbidden(c: char) -> bool {
    c == '<' || c == '>' || c == '\n'
}

/// A text that can stand in a signature's name or email.
pub open spec fn signature_text(s: Seq<char>) -> bool {
    forall|i: int| 0 <= i < s.len() ==> !is_forbidden(#[trigger] s[i])
}

/// A signature, as values.
pub struct SignatureModel {
    pub name: Seq<char>,
    pub email: Seq<char>,
    pub time: i64,
    pub offset: i32,
}

/// A name and an email, with seconds since the epoch and the offset of the
/// local time zone in minutes.
pub struct Signature {
    name: String,
    email: String,
    time: i64,
    offset: i32,
}

impl View for Signature {
    type V = SignatureModel;

    closed spec fn view(&self) -> SignatureModel {
        SignatureModel { name: self.name@, email: self.email@, time: self.time, offset: self.offset }
    }
}

/// Whether no character of `s` is forbidden in a signature.
pub(crate) fn fits_signature(s: &str) -> (r: bool)
    ensures
        r == signature_text(s@),
{
    let cs = chars_of(s);
    let mut i: usize = 0;
    while i < cs.len()
        invariant
            cs@ == s@,
            i <= cs.len(),
            forall|j: int| 0 <= j < i ==> !is_forbidden(#[trigger] s@[j]),
        decreases cs.len() - i,
    {
        let c = cs[i];
        if c == '<' || c == '>' || c == '\n' {
            return false;
        }
        i += 1;
    }
    true
}

impl Signature {
    /// Name and email hold no forbidden character.
    pub open spec fn wf(&self) -> bool {
        signature_text(self@.name) && signature_text(self@.email)
    }

    /// A signature with the given parts. Fails when the name or the email
    /// holds `<`, `>` or a newline.
    pub fn new(name: &str, email: &str, time: i64, offset: i32) -> (r: Result<Signature, Error>)
        ensures
            r is Ok <==> signature_text(name@) && signature_text(email@),
            r is Err ==> r->Err_0 == Error::InvalidSignature,
            r is Ok ==> r->Ok_0.wf() && r->Ok_0@ == (SignatureModel {
                name: name@,
                email: email@,
                time,
                offset,
            }),
    {
        if !fits_signature(name) || !fits_signature(email) {
            return Err(Error::InvalidSignature);
        }
        Ok(Signature { name: name.to_owned(), email: email.to_owned(), time, offset })
    }

    /// The name.
    pub fn name(&self) -> (r: &str)
        ensures
            r@ == self@.name,
    {
        self.name.as_str()
    }

    /// The email.
    pub fn email(&self) -> (r: &str)
        ensures
            r@ == self@.email,
    {
        self.email.as_str()
    }

    /// Seconds since the epoch.
    pub fn time(&self) -> (r: i64)
        ensures
            r == self@.time,
    {
        self.time
    }

    /// Offset of the local time zone, in minutes.
    pub fn offset(&self) -> (r: i32)
        ensures
            r == self@.offset,
    {
        self.offset
    }
}

} // verus!
