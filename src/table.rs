use vstd::prelude::*;

use crate::digest::is_lower_hex;
use crate::entry::{lemma_determinism, valid_entry, Entry, EntryView};
use crate::pattern::{
    chars_of, has_wildcard, lemma_plain_pattern_is_equality, like_match_chars, like_matches,
};

verus! {

/// No two rows share a plaintext.
pub open spec fn plaintexts_unique(rows: Seq<EntryView>) -> bool {
    forall|i: int, j: int|
        0 <= i < rows.len() && 0 <= j < rows.len() && i != j ==> rows[i].plaintext
            != rows[j].plaintext
}

/// Every row is a valid entry: it holds the digests of its own plaintext.
pub open spec fn rows_consistent(rows: Seq<EntryView>) -> bool {
    forall|i: int| 0 <= i < rows.len() ==> valid_entry(#[trigger] rows[i])
}

/// The invariant of a stored table.
pub open spec fn rows_wf(rows: Seq<EntryView>) -> bool {
    plaintexts_unique(rows) && rows_consistent(rows)
}

/// Whether some row has exactly this plaintext.
pub open spec fn holds_plaintext(rows: Seq<EntryView>, p: Seq<char>) -> bool {
    exists|i: int| 0 <= i < rows.len() && rows[i].plaintext == p
}

/// The rows after offering an entry: unchanged when its plaintext is already
/// stored, else with the entry appended.
pub open spec fn inserted(rows: Seq<EntryView>, e: EntryView) -> Seq<EntryView> {
    if holds_plaintext(rows, e.plaintext) {
        rows
    } else {
        rows.push(e)
    }
}

/// The first row, in storage order, that satisfies `hit`.
pub open spec fn first_match(rows: Seq<EntryView>, hit: spec_fn(EntryView) -> bool) -> Option<
    EntryView,
>
    decreases rows.len(),
{
    if rows.len() == 0 {
        None
    } else if hit(rows[0]) {
        Some(rows[0])
    } else {
        first_match(rows.drop_first(), hit)
    }
}

/// A row hit by a plaintext lookup: its plaintext matches the pattern.
pub open spec fn plaintext_hit(pattern: Seq<char>) -> spec_fn(EntryView) -> bool {
    |e: EntryView| like_matches(pattern, e.plaintext)
}

/// A row hit by a digest lookup: any of its four digests matches the pattern.
pub open spec fn hash_hit(pattern: Seq<char>) -> spec_fn(EntryView) -> bool {
    |e: EntryView|
        like_matches(pattern, e.md5) || like_matches(pattern, e.sha1) || like_matches(
            pattern,
            e.sha256,
        ) || like_matches(pattern, e.sha512)
}

/// What a lookup by plaintext returns.
pub open spec fn find_by_plaintext(rows: Seq<EntryView>, pattern: Seq<char>) -> Option<EntryView> {
    first_match(rows, plaintext_hit(pattern))
}

/// What a lookup by digest returns.
pub open spec fn find_by_hash(rows: Seq<EntryView>, pattern: Seq<char>) -> Option<EntryView> {
    first_match(rows, hash_hit(pattern))
}

/// The first match over all rows is the first match over those from `i` on,
/// when none before `i` is hit.
proof fn lemma_first_match_skip(rows: Seq<EntryView>, hit: spec_fn(EntryView) -> bool, i: int)
    requires
        0 <= i <= rows.len(),
        forall|j: int| 0 <= j < i ==> !hit(#[trigger] rows[j]),
    ensures
        first_match(rows, hit) == first_match(rows.subrange(i, rows.len() as int), hit),
    decreases i,
{
    if i > 0 {
        assert(rows.drop_first().subrange(i - 1, rows.drop_first().len() as int) =~= rows.subrange(
            i,
            rows.len() as int,
        ));
        assert forall|j: int| 0 <= j < i - 1 implies !hit(#[trigger] rows.drop_first()[j]) by {
            assert(rows.drop_first()[j] == rows[j + 1]);
        }
        lemma_first_match_skip(rows.drop_first(), hit, i - 1);
    } else {
        assert(rows.subrange(0, rows.len() as int) =~= rows);
    }
}

/// The first match is the row at `k` when `k` is hit and no row before it is.
proof fn lemma_first_match_at(rows: Seq<EntryView>, hit: spec_fn(EntryView) -> bool, k: int)
    requires
        0 <= k < rows.len(),
        hit(rows[k]),
        forall|j: int| 0 <= j < k ==> !hit(#[trigger] rows[j]),
    ensures
        first_match(rows, hit) == Some(rows[k]),
{
    lemma_first_match_skip(rows, hit, k);
    assert(rows.subrange(k, rows.len() as int)[0] == rows[k]);
}

/// With no row hit there is no first match.
proof fn lemma_first_match_none(rows: Seq<EntryView>, hit: spec_fn(EntryView) -> bool)
    requires
        forall|j: int| 0 <= j < rows.len() ==> !hit(#[trigger] rows[j]),
    ensures
        first_match(rows, hit) is None,
{
    lemma_first_match_skip(rows, hit, rows.len() as int);
}

/// A hex string holds no wildcard character.
proof fn lemma_hex_is_plain(s: Seq<char>)
    requires
        is_lower_hex(s),
    ensures
        !has_wildcard(s),
{
    if has_wildcard(s) {
        let i = choose|i: int| 0 <= i < s.len() && (s[i] == '%' || s[i] == '_');
        assert(('0' <= s[i] <= '9') || ('a' <= s[i] <= 'f'));
    }
}

/// Whether `h` is one of the four digests of a row.
pub open spec fn has_digest(e: EntryView, h: Seq<char>) -> bool {
    h == e.md5 || h == e.sha1 || h == e.sha256 || h == e.sha512
}

/// Offering a valid entry keeps the table invariant, so no two rows ever share
/// a plaintext; an entry whose plaintext is already stored leaves every row,
/// digests included, as it was.
pub proof fn lemma_insert_keeps_unique(rows: Seq<EntryView>, e: EntryView)
    requires
        rows_wf(rows),
        valid_entry(e),
    ensures
        rows_wf(inserted(rows, e)),
        holds_plaintext(rows, e.plaintext) ==> inserted(rows, e) == rows,
{
    if !holds_plaintext(rows, e.plaintext) {
        let r2 = rows.push(e);
        assert forall|i: int, j: int|
            0 <= i < r2.len() && 0 <= j < r2.len() && i != j implies r2[i].plaintext
            != r2[j].plaintext by {
            if i == rows.len() {
                assert(rows[j] == r2[j]);
            } else if j == rows.len() {
                assert(rows[i] == r2[i]);
            } else {
                assert(rows[i] == r2[i] && rows[j] == r2[j]);
            }
        }
        assert forall|i: int| 0 <= i < r2.len() implies valid_entry(#[trigger] r2[i]) by {
            if i < rows.len() {
                assert(rows[i] == r2[i]);
            }
        }
    }
}

/// The position of the row with plaintext `p` in a table that holds it.
proof fn lemma_row_of(rows: Seq<EntryView>, p: Seq<char>) -> (k: int)
    requires
        rows_wf(rows),
        holds_plaintext(rows, p),
    ensures
        0 <= k < rows.len(),
        rows[k].plaintext == p,
        forall|j: int| 0 <= j < rows.len() && j != k ==> rows[j].plaintext != p,
{
    choose|k: int| 0 <= k < rows.len() && rows[k].plaintext == p
}

/// After a valid entry is offered, looking up its plaintext (free of
/// wildcards) returns that entry, with the four digests of the plaintext.
pub proof fn lemma_round_trip(rows: Seq<EntryView>, e: EntryView)
    requires
        rows_wf(rows),
        valid_entry(e),
        !has_wildcard(e.plaintext),
    ensures
        find_by_plaintext(inserted(rows, e), e.plaintext) == Some(e),
{
    let p = e.plaintext;
    let r2 = inserted(rows, e);
    lemma_insert_keeps_unique(rows, e);
    if !holds_plaintext(rows, p) {
        assert(r2[rows.len() as int] == e);
    }
    let k = lemma_row_of(r2, p);
    let hit = plaintext_hit(p);
    assert forall|j: int| 0 <= j < k implies !hit(#[trigger] r2[j]) by {
        lemma_plain_pattern_is_equality(p, r2[j].plaintext);
    }
    lemma_plain_pattern_is_equality(p, r2[k].plaintext);
    lemma_first_match_at(r2, hit, k);
    lemma_determinism(r2[k], e);
}

/// After a valid entry is offered, looking up any one of its digests returns
/// that entry, provided no row of another plaintext carries that digest.
pub proof fn lemma_any_hash(rows: Seq<EntryView>, e: EntryView, h: Seq<char>)
    requires
        rows_wf(rows),
        valid_entry(e),
        has_digest(e, h),
        forall|i: int|
            0 <= i < rows.len() && rows[i].plaintext != e.plaintext ==> !has_digest(
                #[trigger] rows[i],
                h,
            ),
    ensures
        find_by_hash(inserted(rows, e), h) == Some(e),
{
    let p = e.plaintext;
    let r2 = inserted(rows, e);
    lemma_insert_keeps_unique(rows, e);
    if !holds_plaintext(rows, p) {
        assert(r2[rows.len() as int] == e);
    }
    let k = lemma_row_of(r2, p);
    lemma_determinism(r2[k], e);
    let hit = hash_hit(h);
    lemma_hex_is_plain(e.md5);
    lemma_hex_is_plain(e.sha1);
    lemma_hex_is_plain(e.sha256);
    lemma_hex_is_plain(e.sha512);
    assert(!has_wildcard(h));
    assert forall|j: int| 0 <= j < r2.len() implies #[trigger] hit(r2[j]) == has_digest(r2[j], h) by {
        lemma_plain_pattern_is_equality(h, r2[j].md5);
        lemma_plain_pattern_is_equality(h, r2[j].sha1);
        lemma_plain_pattern_is_equality(h, r2[j].sha256);
        lemma_plain_pattern_is_equality(h, r2[j].sha512);
    }
    assert forall|j: int| 0 <= j < k implies !hit(#[trigger] r2[j]) by {
        assert(hit(r2[j]) == has_digest(r2[j], h));
        assert(r2[j].plaintext != p);
        if j < rows.len() {
            assert(r2[j] == rows[j]);
        }
    }
    assert(hit(r2[k]) == has_digest(r2[k], h));
    lemma_first_match_at(r2, hit, k);
}

/// Looking up a plaintext (free of wildcards) that was never stored finds
/// nothing.
pub proof fn lemma_plaintext_not_found(rows: Seq<EntryView>, p: Seq<char>)
    requires
        !has_wildcard(p),
        !holds_plaintext(rows, p),
    ensures
        find_by_plaintext(rows, p) is None,
{
    let hit = plaintext_hit(p);
    assert forall|j: int| 0 <= j < rows.len() implies !hit(#[trigger] rows[j]) by {
        lemma_plain_pattern_is_equality(p, rows[j].plaintext);
    }
    lemma_first_match_none(rows, hit);
}

/// Looking up a digest (free of wildcards) that no row carries finds nothing.
pub proof fn lemma_hash_not_found(rows: Seq<EntryView>, h: Seq<char>)
    requires
        !has_wildcard(h),
        forall|i: int| 0 <= i < rows.len() ==> !has_digest(#[trigger] rows[i], h),
    ensures
        find_by_hash(rows, h) is None,
{
    let hit = hash_hit(h);
    assert forall|j: int| 0 <= j < rows.len() implies !hit(#[trigger] rows[j]) by {
        assert(!has_digest(rows[j], h));
        lemma_plain_pattern_is_equality(h, rows[j].md5);
        lemma_plain_pattern_is_equality(h, rows[j].sha1);
        lemma_plain_pattern_is_equality(h, rows[j].sha256);
        lemma_plain_pattern_is_equality(h, rows[j].sha512);
    }
    lemma_first_match_none(rows, hit);
}

/// The rows after offering each entry of `es` in turn.
pub open spec fn insert_all(rows: Seq<EntryView>, es: Seq<EntryView>) -> Seq<EntryView>
    decreases es.len(),
{
    if es.len() == 0 {
        rows
    } else {
        inserted(insert_all(rows, es.drop_last()), es.last())
    }
}

/// How many offers of `es`, made in turn, were accepted.
pub open spec fn accepted_in(rows: Seq<EntryView>, es: Seq<EntryView>) -> nat
    decreases es.len(),
{
    if es.len() == 0 {
        0
    } else {
        accepted_in(rows, es.drop_last()) + if holds_plaintext(
            insert_all(rows, es.drop_last()),
            es.last().plaintext,
        ) {
            0nat
        } else {
            1nat
        }
    }
}

/// The count after any run of offers is the count before plus the number of
/// offers that were accepted, however many were turned away as duplicates.
pub proof fn lemma_count_consistency(rows: Seq<EntryView>, es: Seq<EntryView>)
    ensures
        insert_all(rows, es).len() == rows.len() + accepted_in(rows, es),
    decreases es.len(),
{
    if es.len() > 0 {
        lemma_count_consistency(rows, es.drop_last());
    }
}

/// A store of entries, kept in insertion order, with at most one entry per
/// plaintext.
pub struct Database {
    rows: Vec<Entry>,
}

impl View for Database {
    type V = Seq<EntryView>;

    closed spec fn view(&self) -> Seq<EntryView> {
        self.rows@.map_values(|e: Entry| e@)
    }
}

impl Database {
    /// The table invariant, over the stored rows.
    pub open spec fn wf(&self) -> bool {
        rows_wf(self@)
    }

    /// An empty store.
    pub fn new() -> (db: Database)
        ensures
            db@ == Seq::<EntryView>::empty(),
            db.wf(),
    {
        let db = Database { rows: Vec::new() };
        assert(db@ =~= Seq::<EntryView>::empty());
        db
    }

    /// Offers an entry to the store. When no stored row has its plaintext, the
    /// entry is appended and `true` returned; otherwise nothing changes and
    /// `false` is returned.
    pub fn add_entry(&mut self, entry: Entry) -> (added: bool)
        requires
            old(self).wf(),
        ensures
            added == !holds_plaintext(old(self)@, entry@.plaintext),
            final(self)@.len() == old(self)@.len() + if added {
                1int
            } else {
                0int
            },
            final(self)@ == inserted(old(self)@, entry@),
            final(self).wf(),
    {
        let mut i: usize = 0;
        while i < self.rows.len()
            invariant
                i <= self.rows@.len(),
                self@ == old(self)@,
                self.wf(),
                forall|k: int| 0 <= k < i ==> self@[k].plaintext != entry@.plaintext,
            decreases self.rows@.len() - i,
        {
            assert(self@[i as int] == self.rows@[i as int]@);
            if *self.rows[i].plaintext() == *entry.plaintext() {
                assert(holds_plaintext(old(self)@, entry@.plaintext));
                return false;
            }
            i = i + 1;
        }
        let _ = entry.plaintext();
        self.rows.push(entry);
        assert(self@ =~= old(self)@.push(entry@));
        true
    }

    /// The first stored entry whose plaintext matches the LIKE-style pattern.
    pub fn query_plaintext(&self, plaintext: &str) -> (r: Option<Entry>)
        ensures
            match r {
                Some(e) => find_by_plaintext(self@, plaintext@) == Some(e@),
                None => find_by_plaintext(self@, plaintext@) is None,
            },
    {
        let pattern = chars_of(plaintext);
        let ghost hit = plaintext_hit(plaintext@);
        let mut i: usize = 0;
        while i < self.rows.len()
            invariant
                i <= self.rows@.len(),
                pattern@ == plaintext@,
                hit == plaintext_hit(plaintext@),
                forall|k: int| 0 <= k < i ==> !hit(#[trigger] self@[k]),
            decreases self.rows@.len() - i,
        {
            assert(self@[i as int] == self.rows@[i as int]@);
            let text = chars_of(self.rows[i].plaintext().as_str());
            if like_match_chars(&pattern, &text) {
                proof {
                    lemma_first_match_skip(self@, hit, i as int);
                }
                return Some(self.rows[i].duplicate());
            }
            i = i + 1;
        }
        proof {
            lemma_first_match_skip(self@, hit, i as int);
        }
        None
    }

    /// The first stored entry one of whose four digests matches the
    /// LIKE-style pattern.
    pub fn query_hash(&self, hash: &str) -> (r: Option<Entry>)
        ensures
            match r {
                Some(e) => find_by_hash(self@, hash@) == Some(e@),
                None => find_by_hash(self@, hash@) is None,
            },
    {
        let pattern = chars_of(hash);
        let ghost hit = hash_hit(hash@);
        let mut i: usize = 0;
        while i < self.rows.len()
            invariant
                i <= self.rows@.len(),
                pattern@ == hash@,
                hit == hash_hit(hash@),
                forall|k: int| 0 <= k < i ==> !hit(#[trigger] self@[k]),
            decreases self.rows@.len() - i,
        {
            assert(self@[i as int] == self.rows@[i as int]@);
            let row = &self.rows[i];
            let found = like_match_chars(&pattern, &chars_of(row.md5().as_str()))
                || like_match_chars(&pattern, &chars_of(row.sha1().as_str()))
                || like_match_chars(&pattern, &chars_of(row.sha256().as_str()))
                || like_match_chars(&pattern, &chars_of(row.sha512().as_str()));
            if found {
                proof {
                    lemma_first_match_skip(self@, hit, i as int);
                }
                return Some(row.duplicate());
            }
            i = i + 1;
        }
        proof {
            lemma_first_match_skip(self@, hit, i as int);
        }
        None
    }

    /// The number of stored entries.
    pub fn get_count(&self) -> (n: usize)
        ensures
            n == self@.len(),
    {
        self.rows.len()
    }

    /// The entry stored at position `i`, in insertion order.
    pub fn entry_at(&self, i: usize) -> (e: &Entry)
        requires
            i < self@.len(),
        ensures
            e@ == self@[i as int],
    {
        assert(self@[i as int] == self.rows@[i as int]@);
        &self.rows[i]
    }
}

} // verus!
