//! The relay store: an append-only ordered log of (tag, ciphertext) entries
//! with incremental fetch anchored by a reference tag. Entries get dense,
//! monotonically increasing ids; a fetch returns exactly the entries strictly
//! newer than the most recent occurrence of the reference tag, filtered by a
//! detection key.

use vstd::prelude::*;

use crate::encrypt::{TaggedCiphertext, TaggedCiphertextV};
use crate::tags::{tag_test, DetectionKey, Tag};

verus! {

/// A request to append one tagged ciphertext to the log.
pub struct PostMessageRequest {
    pub tag: Tag,
    pub ciphertext: TaggedCiphertext,
}

/// A request for all entries newer than the reference tag, filtered by the
/// detection key.
pub struct FetchMessagesRequest {
    pub reference_tag: Option<Tag>,
    pub detection_key: DetectionKey,
}

/// The entries a fetch returned.
pub struct DetectedTags {
    pub detected_tags: Vec<(Tag, TaggedCiphertext)>,
}

/// The mathematical contents of one log entry.
pub ghost struct RelayEntryV {
    pub id: u64,
    pub tag: Seq<u8>,
    pub ciphertext: TaggedCiphertextV,
}

/// One stored log entry.
pub struct RelayEntry {
    id: u64,
    tag: Tag,
    ciphertext: TaggedCiphertext,
}

impl View for RelayEntry {
    type V = RelayEntryV;

    closed spec fn view(&self) -> RelayEntryV {
        RelayEntryV { id: self.id, tag: self.tag@, ciphertext: self.ciphertext@ }
    }
}

/// The append-only relay log.
pub struct RelayStore {
    entries: Vec<RelayEntry>,
}

/// The views of a sequence of stored entries.
pub open spec fn log_of(s: Seq<RelayEntry>) -> Seq<RelayEntryV> {
    Seq::new(s.len(), |i: int| s[i]@)
}

impl View for RelayStore {
    type V = Seq<RelayEntryV>;

    closed spec fn view(&self) -> Seq<RelayEntryV> {
        log_of(self.entries@)
    }
}

/// Ids are assigned densely in insertion order.
pub open spec fn ids_are_indices(log: Seq<RelayEntryV>) -> bool {
    forall|i: int| 0 <= i < log.len() ==> (#[trigger] log[i].id) == i
}

/// The index of the newest entry whose tag bytes equal `t`, or -1 when no
/// entry matches.
pub open spec fn last_match(log: Seq<RelayEntryV>, t: Seq<u8>) -> int
    decreases log.len(),
{
    if log.len() == 0 {
        -1
    } else if log.last().tag == t {
        log.len() - 1
    } else {
        last_match(log.drop_last(), t)
    }
}

/// The index a fetch starts from: right after the newest occurrence of the
/// reference tag, or the beginning when there is none.
pub open spec fn fetch_start(log: Seq<RelayEntryV>, reference: Option<Seq<u8>>) -> int {
    match reference {
        Option::None => 0,
        Option::Some(t) => last_match(log, t) + 1,
    }
}

/// What a fetch returns: the tail of the log after the cut, filtered by the
/// detection key.
pub open spec fn passes(dk: Seq<u8>) -> spec_fn(RelayEntryV) -> bool {
    |e: RelayEntryV| tag_test(dk, e.tag)
}

pub open spec fn fetch_result(
    log: Seq<RelayEntryV>,
    reference: Option<Seq<u8>>,
    dk: Seq<u8>,
) -> Seq<RelayEntryV> {
    log.subrange(fetch_start(log, reference), log.len() as int).filter(passes(dk))
}

/// The view of the reference tag carried by a fetch request.
pub open spec fn reference_view(r: &FetchMessagesRequest) -> Option<Seq<u8>> {
    match r.reference_tag {
        Option::None => Option::None,
        Option::Some(t) => Option::Some(t@),
    }
}

/// The returned pairs carry exactly the tags and ciphertexts of the given
/// entries, in order.
pub open spec fn pairs_match(v: Seq<(Tag, TaggedCiphertext)>, f: Seq<RelayEntryV>) -> bool {
    v.len() == f.len() && (forall|k: int|
        0 <= k < f.len() ==> (#[trigger] v[k].0)@ == f[k].tag && v[k].1@ == f[k].ciphertext)
}

proof fn lemma_last_match_range(log: Seq<RelayEntryV>, t: Seq<u8>)
    ensures
        -1 <= last_match(log, t) < log.len(),
    decreases log.len(),
{
    if log.len() > 0 && log.last().tag != t {
        lemma_last_match_range(log.drop_last(), t);
    }
}

proof fn lemma_last_match_found(log: Seq<RelayEntryV>, t: Seq<u8>, i: int)
    requires
        0 <= i < log.len(),
        log[i].tag == t,
        forall|j: int| i < j < log.len() ==> (#[trigger] log[j]).tag != t,
    ensures
        last_match(log, t) == i,
    decreases log.len(),
{
    if i == log.len() - 1 {
    } else {
        assert(log.last().tag != t);
        assert(log.drop_last()[i] == log[i]);
        lemma_last_match_found(log.drop_last(), t, i);
    }
}

proof fn lemma_last_match_none(log: Seq<RelayEntryV>, t: Seq<u8>)
    requires
        forall|j: int| 0 <= j < log.len() ==> (#[trigger] log[j]).tag != t,
    ensures
        last_match(log, t) == -1,
    decreases log.len(),
{
    if log.len() > 0 {
        lemma_last_match_none(log.drop_last(), t);
    }
}

/// Appending to a sequence and filtering: the new element stays at the end
/// exactly when it passes.
proof fn lemma_filter_push(s: Seq<RelayEntryV>, pred: spec_fn(RelayEntryV) -> bool, x: RelayEntryV)
    ensures
        s.push(x).filter(pred) == if pred(x) {
            s.filter(pred).push(x)
        } else {
            s.filter(pred)
        },
{
    reveal(Seq::filter);
    assert(s.push(x).drop_last() =~= s);
    assert(s.push(x).last() == x);
}

proof fn lemma_pairs_match_push(
    v: Seq<(Tag, TaggedCiphertext)>,
    f: Seq<RelayEntryV>,
    p: (Tag, TaggedCiphertext),
    e: RelayEntryV,
)
    requires
        pairs_match(v, f),
        p.0@ == e.tag,
        p.1@ == e.ciphertext,
    ensures
        pairs_match(v.push(p), f.push(e)),
{
    let v2 = v.push(p);
    let f2 = f.push(e);
    assert forall|k: int| 0 <= k < f2.len() implies (#[trigger] v2[k].0)@ == f2[k].tag && v2[k].1@
        == f2[k].ciphertext by {
        if k < f.len() {
            assert(v2[k] == v[k]);
            assert(f2[k] == f[k]);
        } else {
            assert(v2[k] == p);
            assert(f2[k] == e);
        }
    }
}

/// Every element of a filtered sequence occurs in the sequence it was
/// filtered from.
proof fn lemma_filter_from(s: Seq<RelayEntryV>, pred: spec_fn(RelayEntryV) -> bool, k: int)
    requires
        0 <= k < s.filter(pred).len(),
    ensures
        exists|i: int| 0 <= i < s.len() && s[i] == #[trigger] s.filter(pred)[k],
    decreases s.len(),
{
    reveal(Seq::filter);
    if s.len() > 0 {
        let d = s.drop_last();
        if pred(s.last()) && k == s.filter(pred).len() - 1 {
            assert(s[s.len() - 1] == s.filter(pred)[k]);
        } else {
            lemma_filter_from(d, pred, k);
            let i = choose|i: int| 0 <= i < d.len() && d[i] == d.filter(pred)[k];
            assert(s[i] == s.filter(pred)[k]);
        }
    }
}

impl RelayStore {
    #[verifier::type_invariant]
    spec fn type_inv(self) -> bool {
        ids_are_indices(self@)
    }

    /// An empty log.
    pub fn new() -> (r: RelayStore)
        ensures
            r@ == Seq::<RelayEntryV>::empty(),
    {
        let r = RelayStore { entries: Vec::new() };
        proof {
            assert(r@ =~= Seq::<RelayEntryV>::empty());
        }
        r
    }

    /// The number of stored entries.
    pub fn len(&self) -> (r: usize)
        ensures
            r == self@.len(),
    {
        self.entries.len()
    }

    /// Append one entry, assigning it the next id; returns the assigned id.
    pub fn post(&mut self, request: PostMessageRequest) -> (r: u64)
        ensures
            final(self)@ == old(self)@.push(
                (RelayEntryV {
                    id: old(self)@.len() as u64,
                    tag: request.tag@,
                    ciphertext: request.ciphertext@,
                }),
            ),
            r == old(self)@.len() as u64,
    {
        proof {
            use_type_invariant(&*self);
        }
        let id = self.entries.len() as u64;
        let entry = RelayEntry { id, tag: request.tag, ciphertext: request.ciphertext };
        let mut entries: Vec<RelayEntry> = Vec::new();
        std::mem::swap(&mut entries, &mut self.entries);
        entries.push(entry);
        proof {
            assert(log_of(entries@) =~= old(self)@.push(entry@));
        }
        std::mem::swap(&mut entries, &mut self.entries);
        proof {
            assert(self@ =~= old(self)@.push(
                RelayEntryV {
                    id: old(self)@.len() as u64,
                    tag: request.tag@,
                    ciphertext: request.ciphertext@,
                },
            ));
        }
        id
    }

    /// Serve a fetch: every entry strictly newer than the newest occurrence
    /// of the reference tag (all entries when it is absent or never seen),
    /// filtered by the detection key, in log order.
    pub fn tags(&self, request: &FetchMessagesRequest) -> (r: DetectedTags)
        ensures
            pairs_match(
                r.detected_tags@,
                fetch_result(self@, reference_view(request), request.detection_key@),
            ),
    {
        proof {
            use_type_invariant(&*self);
        }
        let len = self.entries.len();
        let start: usize = match &request.reference_tag {
            Option::None => 0,
            Option::Some(t) => {
                let mut found: usize = 0;
                let mut seen = false;
                let mut i: usize = len;
                while i > 0 && !seen
                    invariant
                        i <= len,
                        len == self@.len(),
                        !seen ==> found == 0 && forall|j: int|
                            i <= j < len ==> (#[trigger] self@[j]).tag != t@,
                        seen ==> i < len && self@[i as int].tag == t@ && (forall|j: int|
                            i < j < len ==> (#[trigger] self@[j]).tag != t@) && found == i + 1,
                    decreases i,
                {
                    i = i - 1;
                    if self.entries[i].tag.matches(t) {
                        seen = true;
                        found = i + 1;
                        proof {
                            assert(self@[i as int].tag == t@);
                        }
                    }
                }
                proof {
                    if seen {
                        lemma_last_match_found(self@, t@, i as int);
                    } else {
                        lemma_last_match_none(self@, t@);
                    }
                    assert(found == fetch_start(self@, reference_view(request)));
                }
                found
            },
        };
        proof {
            assert(start == fetch_start(self@, reference_view(request)));
        }
        let mut out: Vec<(Tag, TaggedCiphertext)> = Vec::new();
        let mut i: usize = start;
        proof {
            assert(self@.subrange(start as int, start as int) =~= Seq::<RelayEntryV>::empty());
            reveal(Seq::filter);
        }
        while i < len
            invariant
                start <= i <= len,
                len == self@.len(),
                pairs_match(out@, self@.subrange(start as int, i as int).filter(passes(request.detection_key@))),
            decreases len - i,
        {
            let entry = &self.entries[i];
            proof {
                assert(entry@ == self@[i as int]);
                assert(self@.subrange(start as int, i as int + 1) =~= self@.subrange(
                    start as int,
                    i as int,
                ).push(self@[i as int]));
                lemma_filter_push(self@.subrange(start as int, i as int), passes(request.detection_key@), self@[i as int]);
            }
            let ghost prev = self@.subrange(start as int, i as int).filter(passes(request.detection_key@));
            if request.detection_key.test_tag(&entry.tag) {
                let pair = (entry.tag.clone(), entry.ciphertext.clone());
                let ghost out_old = out@;
                out.push(pair);
                proof {
                    lemma_pairs_match_push(out_old, prev, pair, self@[i as int]);
                }
            }
            i = i + 1;
        }
        proof {
            assert(self@.subrange(start as int, len as int) =~= self@.subrange(
                start as int,
                self@.len() as int,
            ));
        }
        DetectedTags { detected_tags: out }
    }
}

/// Fetch slice correctness: with a reference tag, an entry is returned
/// exactly when its id is strictly greater than the id of the newest entry
/// carrying the reference tag (every entry, when no entry carries it) and
/// its tag passes the detection key.
pub proof fn lemma_fetch_slice_correctness(
    log: Seq<RelayEntryV>,
    reference: Seq<u8>,
    dk: Seq<u8>,
    i: int,
)
    requires
        ids_are_indices(log),
        0 <= i < log.len(),
    ensures
        fetch_result(log, Option::Some(reference), dk).contains(log[i]) <==> (i > last_match(
            log,
            reference,
        ) && tag_test(dk, log[i].tag)),
{
    let start = fetch_start(log, Option::Some(reference));
    lemma_last_match_range(log, reference);
    let tail = log.subrange(start, log.len() as int);
    let pred = passes(dk);
    let fr = fetch_result(log, Option::Some(reference), dk);
    if i >= start && pred(log[i]) {
        assert(tail[i - start] == log[i]);
        broadcast use vstd::seq_lib::group_filter_ensures;
        assert(fr.contains(log[i]));
    }
    if fr.contains(log[i]) {
        let k = choose|k: int| 0 <= k < fr.len() && fr[k] == log[i];
        broadcast use vstd::seq_lib::group_filter_ensures;
        assert(pred(fr[k]));
        lemma_filter_from(tail, pred, k);
        let j = choose|j: int| 0 <= j < tail.len() && tail[j] == fr[k];
        assert(log[start + j] == log[i]);
        assert(log[start + j].id == start + j);
        assert(log[i].id == i);
    }
}

/// Cursor monotonicity: the entries a fetch returns come in strictly
/// increasing id order, so the last processed tag of a batch belongs to the
/// newest entry of that batch.
pub proof fn lemma_fetch_ordered(
    log: Seq<RelayEntryV>,
    reference: Option<Seq<u8>>,
    dk: Seq<u8>,
    a: int,
    b: int,
)
    requires
        ids_are_indices(log),
        0 <= a < b < fetch_result(log, reference, dk).len(),
    ensures
        fetch_result(log, reference, dk)[a].id < fetch_result(log, reference, dk)[b].id,
{
    let start = fetch_start(log, reference);
    match reference {
        Option::Some(t) => lemma_last_match_range(log, t),
        Option::None => (),
    }
    let tail = log.subrange(start, log.len() as int);
    let pred = passes(dk);
    lemma_filter_increasing(tail, pred, a, b);
}

/// Filtering keeps strictly increasing ids strictly increasing.
proof fn lemma_filter_increasing(
    s: Seq<RelayEntryV>,
    pred: spec_fn(RelayEntryV) -> bool,
    a: int,
    b: int,
)
    requires
        forall|i: int, j: int| 0 <= i < j < s.len() ==> (#[trigger] s[i]).id < (#[trigger] s[j]).id,
        0 <= a < b < s.filter(pred).len(),
    ensures
        s.filter(pred)[a].id < s.filter(pred)[b].id,
    decreases s.len(),
{
    reveal(Seq::filter);
    let f = s.filter(pred);
    if s.len() > 0 {
        let d = s.drop_last();
        if pred(s.last()) {
            assert(f == d.filter(pred).push(s.last()));
            if b == f.len() - 1 {
                assert(f[b] == s.last());
                assert(f[a] == d.filter(pred)[a]);
                lemma_filter_from(d, pred, a);
                let i = choose|i: int| 0 <= i < d.len() && d[i] == d.filter(pred)[a];
                assert(s[i] == f[a]);
                assert(s[i].id < s[s.len() - 1].id);
            } else {
                assert(f[a] == d.filter(pred)[a]);
                assert(f[b] == d.filter(pred)[b]);
                lemma_filter_increasing(d, pred, a, b);
            }
        } else {
            assert(f == d.filter(pred));
            lemma_filter_increasing(d, pred, a, b);
        }
    }
}

} // verus!
