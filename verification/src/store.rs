use vstd::prelude::*;

use crate::models::RecordView;
use crate::models::UrlDbSchema;
use crate::models::valid_record;

verus! {

broadcast use vstd::seq_lib::group_filter_ensures;

/// Why the store refused an insert: the record's short code is already
/// taken by a live record. The store enforces this itself, so a losing
/// insert fails deterministically instead of overwriting or duplicating.
#[derive(Debug, PartialEq, Eq, Structural)]
pub enum InsertError {
    UniquenessViolation,
}

/// Whether some live record carries the given short code.
pub open spec fn contains_code(s: Seq<RecordView>, code: Seq<char>) -> bool {
    exists|i: int| 0 <= i < s.len() && s[i].short_code == code
}

/// The first record carrying the given short code, if any.
pub open spec fn spec_find(s: Seq<RecordView>, code: Seq<char>) -> Option<RecordView>
    decreases s.len(),
{
    if s.len() == 0 {
        None
    } else if s[0].short_code == code {
        Some(s[0])
    } else {
        spec_find(s.drop_first(), code)
    }
}

/// No two live records share a short code.
pub open spec fn codes_unique(s: Seq<RecordView>) -> bool {
    forall|i: int, j: int|
        0 <= i < j < s.len() ==> s[i].short_code != s[j].short_code
}

/// The predicate a record must meet to survive a delete of `code`.
pub open spec fn keeps_code(code: Seq<char>) -> spec_fn(RecordView) -> bool {
    |rv: RecordView| rv.short_code != code
}

/// The predicate a record must meet to be listed for `owner`.
pub open spec fn owned_by(owner: Seq<char>) -> spec_fn(RecordView) -> bool {
    |rv: RecordView| rv.discord_id == Some(owner)
}

/// The URL-record table. The single owner of the persisted representation:
/// callers receive copies of records, never references into it. Its
/// invariant is that short codes are unique across all live records and
/// that every record is valid.
pub struct UrlStore {
    records: Vec<UrlDbSchema>,
    clock: u64,
}

impl View for UrlStore {
    type V = Seq<RecordView>;

    closed spec fn view(&self) -> Seq<RecordView> {
        self.records.deep_view()
    }
}

impl UrlStore {
    /// The table invariant: short codes unique, every record valid.
    pub open spec fn wf(self) -> bool {
        &&& codes_unique(self@)
        &&& forall|i: int| 0 <= i < self@.len() ==> valid_record(self@[i])
    }

    /// The logical timestamp the next inserted record will carry.
    pub closed spec fn next_stamp(self) -> u64 {
        self.clock
    }

    pub fn new() -> (s: UrlStore)
        ensures
            s.wf(),
            s@ == Seq::<RecordView>::empty(),
    {
        let s = UrlStore { records: Vec::new(), clock: 0 };
        proof {
            assert(s@ =~= Seq::<RecordView>::empty());
        }
        s
    }

    /// Whether a record with this code is committed; used by the code
    /// generator to test a candidate before it is returned.
    pub fn exists_by_code(&self, code: &String) -> (b: bool)
        ensures
            b == contains_code(self@, code@),
    {
        let n = self.records.len();
        let mut i: usize = 0;
        while i < n
            invariant
                n == self.records.len(),
                i <= n,
                forall|j: int| 0 <= j < i ==> self@[j].short_code != code@,
            decreases n - i,
        {
            if self.records[i].short_code == *code {
                proof {
                    assert(self@[i as int] == self.records@[i as int].deep_view());
                }
                return true;
            }
            i += 1;
        }
        false
    }

    /// Writes a new record, assigning the store's next logical timestamp.
    /// The insert is atomic with respect to the uniqueness invariant: it
    /// succeeds exactly when no live record already carries the code, and
    /// on a collision it refuses with `UniquenessViolation`, leaving the
    /// table unchanged.
    pub fn insert(
        &mut self,
        discord_id: Option<String>,
        short_code: String,
        original_url: String,
    ) -> (r: Result<(), InsertError>)
        requires
            old(self).wf(),
            original_url@.len() > 0,
            discord_id matches Some(id) ==> id@.len() > 0,
        ensures
            final(self).wf(),
            r matches Ok(u) ==> !contains_code(old(self)@, short_code@)
                && final(self)@ == old(self)@.push(
                RecordView {
                    discord_id: discord_id.deep_view(),
                    short_code: short_code@,
                    original_url: original_url@,
                    created_at: old(self).next_stamp(),
                },
            ),
            r matches Err(e) ==> e == InsertError::UniquenessViolation
                && contains_code(old(self)@, short_code@)
                && final(self)@ == old(self)@,
    {
        if self.exists_by_code(&short_code) {
            return Err(InsertError::UniquenessViolation);
        }
        let ghost pre = self@;
        let stamp = self.clock;
        let rec = UrlDbSchema {
            discord_id,
            short_code,
            original_url,
            created_at: stamp,
        };
        let ghost rv = rec@;
        self.records.push(rec);
        if self.clock < u64::MAX {
            self.clock = self.clock + 1;
        }
        proof {
            assert(self@ =~= pre.push(rv));
        }
        Ok(())
    }

    /// Point lookup by primary key; hands the caller a copy of the first
    /// (with the invariant: the only) record under the code, or `None`.
    pub fn get_by_code(&self, code: &String) -> (r: Option<UrlDbSchema>)
        ensures
            r.deep_view() == spec_find(self@, code@),
    {
        let n = self.records.len();
        let mut i: usize = 0;
        proof {
            assert(self@.skip(0) =~= self@);
        }
        while i < n
            invariant
                n == self.records.len(),
                i <= n,
                spec_find(self@, code@) == spec_find(self@.skip(i as int), code@),
            decreases n - i,
        {
            proof {
                assert(self@[i as int] == self.records@[i as int].deep_view());
                assert(self@.skip(i as int)[0] == self@[i as int]);
            }
            if self.records[i].short_code == *code {
                let rec = self.records[i].clone();
                return Some(rec);
            }
            proof {
                assert(self@.skip(i as int).drop_first() =~= self@.skip(i as int + 1));
            }
            i += 1;
        }
        proof {
            assert(self@.skip(n as int) =~= Seq::<RecordView>::empty());
        }
        None
    }

    /// Deletes the record under the code, if there is one; physical and
    /// terminal, there is no soft delete. Returns how many records went
    /// away: 1 when the code was live, 0 when it was not.
    pub fn delete_by_code(&mut self, code: &String) -> (n: usize)
        requires
            old(self).wf(),
        ensures
            final(self).wf(),
            final(self)@ == old(self)@.filter(keeps_code(code@)),
            n == old(self)@.len() - final(self)@.len(),
            n == (if contains_code(old(self)@, code@) { 1int } else { 0int }),
    {
        let len = self.records.len();
        let mut i: usize = 0;
        while i < len
            invariant
                old(self).wf(),
                *self == *old(self),
                len == self.records.len(),
                i <= len,
                forall|j: int| 0 <= j < i ==> self@[j].short_code != code@,
            decreases len - i,
        {
            proof {
                assert(self@[i as int] == self.records@[i as int].deep_view());
            }
            if self.records[i].short_code == *code {
                let ghost pre = self@;
                let ghost gi = i as int;
                self.records.remove(i);
                proof {
                    assert(self@ =~= pre.remove(gi));
                    assert forall|j: int|
                        0 <= j < pre.len() && j != gi implies pre[j].short_code
                        != code@ by {
                        if j > gi {
                            assert(pre[gi].short_code != pre[j].short_code);
                        }
                    }
                    lemma_remove_is_filter(pre, code@, gi);
                    assert(pre.remove(gi) =~= pre.subrange(0, gi) + pre.subrange(
                        gi + 1,
                        pre.len() as int,
                    ));
                    let post = pre.remove(gi);
                    assert forall|p: int, q: int|
                        0 <= p < q < post.len() implies post[p].short_code
                        != post[q].short_code by {
                        let p0 = if p < gi { p } else { p + 1 };
                        let q0 = if q < gi { q } else { q + 1 };
                        assert(post[p] == pre[p0]);
                        assert(post[q] == pre[q0]);
                        assert(pre[p0].short_code != pre[q0].short_code);
                    }
                    assert forall|p: int| 0 <= p < post.len() implies valid_record(
                        post[p],
                    ) by {
                        let p0 = if p < gi { p } else { p + 1 };
                        assert(post[p] == pre[p0]);
                        assert(valid_record(pre[p0]));
                    }
                }
                return 1;
            }
            i += 1;
        }
        proof {
            lemma_filter_all(self@, keeps_code(code@));
        }
        0
    }

    /// All records for an owner, in table order; an empty result and "no
    /// such owner" are indistinguishable here, the caller decides how to
    /// report it. Anonymous records belong to no owner and are never
    /// listed.
    pub fn list_by_owner(&self, owner: &String) -> (r: Vec<UrlDbSchema>)
        ensures
            r.deep_view() == self@.filter(owned_by(owner@)),
    {
        let n = self.records.len();
        let mut out: Vec<UrlDbSchema> = Vec::new();
        let mut i: usize = 0;
        proof {
            assert(out.deep_view() =~= self@.take(0).filter(owned_by(owner@)));
        }
        while i < n
            invariant
                n == self.records.len(),
                i <= n,
                out.deep_view() == self@.take(i as int).filter(owned_by(owner@)),
            decreases n - i,
        {
            proof {
                assert(self@[i as int] == self.records@[i as int].deep_view());
                assert(self@.take(i as int + 1) =~= self@.take(i as int).push(
                    self@[i as int],
                ));
                lemma_filter_push(self@.take(i as int), owned_by(owner@), self@[i as int]);
            }
            let ghost pre = out.deep_view();
            let owned = match &self.records[i].discord_id {
                Some(id) => *id == *owner,
                None => false,
            };
            if owned {
                out.push(self.records[i].clone());
                proof {
                    assert(out.deep_view() =~= pre.push(self@[i as int]));
                }
            }
            i += 1;
        }
        proof {
            assert(self@.take(n as int) =~= self@);
        }
        out
    }
}

/// A sequence whose every element passes the predicate is its own filtrate.
proof fn lemma_filter_all(s: Seq<RecordView>, pred: spec_fn(RecordView) -> bool)
    requires
        forall|k: int| 0 <= k < s.len() ==> pred(s[k]),
    ensures
        s.filter(pred) == s,
    decreases s.len(),
{
    reveal(Seq::filter);
    if s.len() > 0 {
        lemma_filter_all(s.drop_last(), pred);
        assert(s.drop_last().push(s.last()) =~= s);
    }
}

/// Filtering past a pushed element keeps it exactly when it passes.
proof fn lemma_filter_push(s: Seq<RecordView>, pred: spec_fn(RecordView) -> bool, x: RecordView)
    ensures
        s.push(x).filter(pred) == (if pred(x) {
            s.filter(pred).push(x)
        } else {
            s.filter(pred)
        }),
{
    reveal(Seq::filter);
    assert(s.push(x).drop_last() =~= s);
}

/// When exactly one element carries the code, removing it is the same as
/// filtering the code out.
proof fn lemma_remove_is_filter(s: Seq<RecordView>, code: Seq<char>, idx: int)
    requires
        0 <= idx < s.len(),
        s[idx].short_code == code,
        forall|j: int| 0 <= j < s.len() && j != idx ==> s[j].short_code != code,
    ensures
        s.remove(idx) == s.filter(keeps_code(code)),
{
    let prefix = s.subrange(0, idx);
    let mid = s.subrange(idx, idx + 1);
    let suffix = s.subrange(idx + 1, s.len() as int);
    assert(s =~= (prefix + mid) + suffix);
    Seq::filter_distributes_over_add(prefix + mid, suffix, keeps_code(code));
    Seq::filter_distributes_over_add(prefix, mid, keeps_code(code));
    lemma_filter_all(prefix, keeps_code(code));
    lemma_filter_all(suffix, keeps_code(code));
    assert(mid =~= Seq::<RecordView>::empty().push(s[idx]));
    lemma_filter_push(Seq::<RecordView>::empty(), keeps_code(code), s[idx]);
    reveal(Seq::filter);
    assert(Seq::<RecordView>::empty().filter(keeps_code(code)) =~= Seq::<
        RecordView,
    >::empty());
    assert(s.remove(idx) =~= prefix + suffix);
    assert(s.filter(keeps_code(code)) =~= prefix + suffix);
}

/// No element carries the code, so a lookup of it finds nothing.
proof fn lemma_find_absent(s: Seq<RecordView>, code: Seq<char>)
    requires
        forall|k: int| 0 <= k < s.len() ==> s[k].short_code != code,
    ensures
        spec_find(s, code) is None,
    decreases s.len(),
{
    if s.len() > 0 {
        assert(forall|k: int|
            0 <= k < s.drop_first().len() ==> s.drop_first()[k] == s[k + 1]);
        lemma_find_absent(s.drop_first(), code);
    }
}

/// What a lookup's result means: a code is found exactly when some live
/// record carries it, and what is found carries the code and is itself a
/// live record.
pub proof fn lemma_find_means_contains(s: Seq<RecordView>, code: Seq<char>)
    ensures
        spec_find(s, code) is Some <==> contains_code(s, code),
        spec_find(s, code) matches Some(r) ==> r.short_code == code && exists|i: int|
            0 <= i < s.len() && s[i] == r,
    decreases s.len(),
{
    if s.len() > 0 && s[0].short_code != code {
        let rest = s.drop_first();
        lemma_find_means_contains(rest, code);
        if contains_code(s, code) {
            let i = choose|i: int| 0 <= i < s.len() && s[i].short_code == code;
            assert(rest[i - 1].short_code == code);
            assert(contains_code(rest, code));
        }
        if spec_find(rest, code) is Some {
            let r = spec_find(rest, code)->Some_0;
            let i = choose|i: int| 0 <= i < rest.len() && rest[i] == r;
            assert(s[i + 1] == r);
        }
        if contains_code(rest, code) {
            let i = choose|i: int| 0 <= i < rest.len() && rest[i].short_code == code;
            assert(s[i + 1].short_code == code);
            assert(contains_code(s, code));
        }
    }
}

/// Law: in a well-formed store no two live records share a short code;
/// the store's insert preserves this, so it holds of every sequence of
/// successful inserts.
pub proof fn lemma_codes_unique(s: UrlStore)
    requires
        s.wf(),
    ensures
        codes_unique(s@),
{
}

/// Law: a record inserted under a fresh code is exactly what a lookup of
/// that code then finds, the original URL byte for byte included.
pub proof fn lemma_insert_round_trip(s: Seq<RecordView>, rec: RecordView)
    requires
        !contains_code(s, rec.short_code),
    ensures
        spec_find(s.push(rec), rec.short_code) == Some(rec),
    decreases s.len(),
{
    if s.len() == 0 {
        assert(s.push(rec)[0] == rec);
    } else {
        assert(s[0].short_code != rec.short_code) by {
            if s[0].short_code == rec.short_code {
                assert(contains_code(s, rec.short_code));
            }
        }
        assert(!contains_code(s.drop_first(), rec.short_code)) by {
            if contains_code(s.drop_first(), rec.short_code) {
                let i = choose|i: int|
                    0 <= i < s.drop_first().len() && s.drop_first()[i].short_code
                        == rec.short_code;
                assert(s[i + 1].short_code == rec.short_code);
                assert(contains_code(s, rec.short_code));
            }
        }
        lemma_insert_round_trip(s.drop_first(), rec);
        assert(s.push(rec).drop_first() =~= s.drop_first().push(rec));
        assert(s.push(rec)[0] == s[0]);
    }
}

/// Law: delete is terminal. Once the records carrying a code are filtered
/// out, a lookup of the code finds nothing, and filtering again removes
/// nothing more, so a repeated delete affects zero records.
pub proof fn lemma_delete_terminal(s: Seq<RecordView>, code: Seq<char>)
    ensures
        spec_find(s.filter(keeps_code(code)), code) is None,
        s.filter(keeps_code(code)).filter(keeps_code(code)) == s.filter(keeps_code(code)),
{
    let t = s.filter(keeps_code(code));
    assert(forall|k: int| 0 <= k < t.len() ==> #[trigger] keeps_code(code)(t[k]));
    assert(forall|k: int| 0 <= k < t.len() ==> t[k].short_code != code);
    lemma_find_absent(t, code);
    lemma_filter_all(t, keeps_code(code));
}

} // verus!
