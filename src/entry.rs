use vstd::prelude::*;

use crate::digest::{is_lower_hex, md5_hex, md5_of, sha1_hex, sha1_of, sha256_hex, sha256_of, sha512_hex, sha512_of};

verus! {

/// The mathematical content of an entry: a plaintext and its four digests.
pub ghost struct EntryView {
    pub plaintext: Seq<char>,
    pub md5: Seq<char>,
    pub sha1: Seq<char>,
    pub sha256: Seq<char>,
    pub sha512: Seq<char>,
}

/// The one entry that belongs to a plaintext: each digest field is the
/// corresponding algorithm applied to exactly that plaintext.
pub open spec fn entry_for(p: Seq<char>) -> EntryView {
    EntryView {
        plaintext: p,
        md5: md5_of(p),
        sha1: sha1_of(p),
        sha256: sha256_of(p),
        sha512: sha512_of(p),
    }
}

/// An entry as the store may hold it: its digests are those of its plaintext,
/// each written in lowercase hex at the algorithm's width.
pub open spec fn valid_entry(e: EntryView) -> bool {
    &&& e == entry_for(e.plaintext)
    &&& e.md5.len() == 32 && is_lower_hex(e.md5)
    &&& e.sha1.len() == 40 && is_lower_hex(e.sha1)
    &&& e.sha256.len() == 64 && is_lower_hex(e.sha256)
    &&& e.sha512.len() == 128 && is_lower_hex(e.sha512)
}

/// Two valid entries with one plaintext are the same entry: each digest is
/// determined by the plaintext alone.
pub proof fn lemma_determinism(a: EntryView, b: EntryView)
    requires
        valid_entry(a),
        valid_entry(b),
        a.plaintext == b.plaintext,
    ensures
        a == b,
{
}

/// A plaintext together with its MD5, SHA-1, SHA-256 and SHA-512 digests.
///
/// An entry can only be built by computing all four digests from its
/// plaintext, so its digests never disagree with it.
pub struct Entry {
    plaintext: String,
    md5: String,
    sha1: String,
    sha256: String,
    sha512: String,
}

impl View for Entry {
    type V = EntryView;

    closed spec fn view(&self) -> EntryView {
        EntryView {
            plaintext: self.plaintext@,
            md5: self.md5@,
            sha1: self.sha1@,
            sha256: self.sha256@,
            sha512: self.sha512@,
        }
    }
}

impl Entry {
    #[verifier::type_invariant]
    spec fn consistent(&self) -> bool {
        valid_entry(self@)
    }

    /// The plaintext; reading it also brings to light that the entry is
    /// valid.
    pub fn plaintext(&self) -> (r: &String)
        ensures
            r@ == self@.plaintext,
            valid_entry(self@),
    {
        proof {
            use_type_invariant(self);
        }
        &self.plaintext
    }

    pub fn md5(&self) -> (r: &String)
        ensures
            r@ == self@.md5,
    {
        &self.md5
    }

    pub fn sha1(&self) -> (r: &String)
        ensures
            r@ == self@.sha1,
    {
        &self.sha1
    }

    pub fn sha256(&self) -> (r: &String)
        ensures
            r@ == self@.sha256,
    {
        &self.sha256
    }

    pub fn sha512(&self) -> (r: &String)
        ensures
            r@ == self@.sha512,
    {
        &self.sha512
    }

    /// The entry as five labelled lines, one per field.
    pub fn describe(&self) -> (r: String)
        ensures
            r@ == "Plaintext: "@ + self@.plaintext + "\nMD5: "@ + self@.md5 + "\nSHA1: "@
                + self@.sha1 + "\nSHA256: "@ + self@.sha256 + "\nSHA512: "@ + self@.sha512,
    {
        let mut r = String::from_str("Plaintext: ");
        r.append(self.plaintext.as_str());
        r.append("\nMD5: ");
        r.append(self.md5.as_str());
        r.append("\nSHA1: ");
        r.append(self.sha1.as_str());
        r.append("\nSHA256: ");
        r.append(self.sha256.as_str());
        r.append("\nSHA512: ");
        r.append(self.sha512.as_str());
        r
    }

    /// Duplicates an entry.
    pub fn duplicate(&self) -> (r: Entry)
        ensures
            r@ == self@,
    {
        proof {
            use_type_invariant(self);
        }
        Entry {
            plaintext: self.plaintext.clone(),
            md5: self.md5.clone(),
            sha1: self.sha1.clone(),
            sha256: self.sha256.clone(),
            sha512: self.sha512.clone(),
        }
    }
}

/// Builds the entry of a plaintext by computing its four digests.
pub fn construct_entry(plaintext: String) -> (e: Entry)
    ensures
        e@ == entry_for(plaintext@),
        valid_entry(e@),
{
    let md5 = md5_hex(&plaintext);
    let sha1 = sha1_hex(&plaintext);
    let sha256 = sha256_hex(&plaintext);
    let sha512 = sha512_hex(&plaintext);
    Entry { plaintext, md5, sha1, sha256, sha512 }
}

} // verus!
