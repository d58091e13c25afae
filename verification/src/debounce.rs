//! Debouncing: a rule handles a notification about a file only once its
//! debounce interval has passed since it last handled that file.
use vstd::prelude::*;
use crate::text::same_text;

verus! {

/// Whether a notification about a file is handled by a rule, given when the
/// last one handled for the same rule and file was (`None` for never) and
/// the time now, in milliseconds: only once `debounce_ms` have passed.
pub open spec fn debounce_spec(last_ms: Option<u64>, now_ms: u64, debounce_ms: u64) -> bool {
    match last_ms {
        None => true,
        Some(last) => (if now_ms >= last { now_ms - last } else { 0 }) >= debounce_ms,
    }
}

/// Whether a notification about a file is handled by a rule, given when the
/// last one handled for the same rule and file was and the time now.
pub fn debounce_admits(last_ms: Option<u64>, now_ms: u64, debounce_ms: u64) -> (res: bool)
    ensures
        res == debounce_spec(last_ms, now_ms, debounce_ms),
{
    match last_ms {
        None => true,
        Some(last) => {
            let elapsed: u64 = if now_ms >= last { now_ms - last } else { 0 };
            elapsed >= debounce_ms
        },
    }
}

/// Whether an entry is about the given rule and file.
pub open spec fn key_is(e: (String, String, u64), rule_id: Seq<char>, path: Seq<char>) -> bool {
    e.0@ == rule_id && e.1@ == path
}

/// When the rule last handled the file, by the first entry about them.
pub open spec fn last_for(entries: Seq<(String, String, u64)>, rule_id: Seq<char>, path: Seq<char>) -> Option<u64>
    decreases entries.len(),
{
    if entries.len() == 0 {
        None
    } else if key_is(entries[0], rule_id, path) {
        Some(entries[0].2)
    } else {
        last_for(entries.skip(1), rule_id, path)
    }
}

proof fn lemma_last_for_skip(e: Seq<(String, String, u64)>, id: Seq<char>, path: Seq<char>, k: int)
    requires
        0 <= k <= e.len(),
        forall|j: int| 0 <= j < k ==> !key_is(#[trigger] e[j], id, path),
    ensures
        last_for(e, id, path) == last_for(e.skip(k), id, path),
    decreases k,
{
    if k > 0 {
        assert(e.skip(1).skip(k - 1) =~= e.skip(k));
        assert forall|j: int| 0 <= j < k - 1 implies !key_is(#[trigger] e.skip(1)[j], id, path) by {
            assert(e.skip(1)[j] == e[j + 1]);
        }
        lemma_last_for_skip(e.skip(1), id, path, k - 1);
    } else {
        assert(e.skip(0) =~= e);
    }
}

proof fn lemma_last_for_update(
    e: Seq<(String, String, u64)>,
    k: int,
    x: (String, String, u64),
    id: Seq<char>,
    path: Seq<char>,
)
    requires
        0 <= k < e.len(),
        x.0@ == e[k].0@,
        x.1@ == e[k].1@,
        forall|j: int| 0 <= j < k ==> !key_is(#[trigger] e[j], e[k].0@, e[k].1@),
    ensures
        last_for(e.update(k, x), id, path) == (if key_is(x, id, path) {
            Some(x.2)
        } else {
            last_for(e, id, path)
        }),
    decreases k,
{
    if k > 0 {
        assert(e.update(k, x).skip(1) =~= e.skip(1).update(k - 1, x));
        assert forall|j: int| 0 <= j < k - 1 implies !key_is(
            #[trigger] e.skip(1)[j],
            e.skip(1)[k - 1].0@,
            e.skip(1)[k - 1].1@,
        ) by {
            assert(e.skip(1)[j] == e[j + 1]);
        }
        lemma_last_for_update(e.skip(1), k - 1, x, id, path);
        assert(e.update(k, x)[0] == e[0]);
        if key_is(x, id, path) {
            assert(!key_is(e[0], id, path));
        }
    } else {
        assert(e.update(0, x).skip(1) =~= e.skip(1));
    }
}

proof fn lemma_last_for_push(e: Seq<(String, String, u64)>, x: (String, String, u64), id: Seq<char>, path: Seq<char>)
    ensures
        last_for(e.push(x), id, path) == (match last_for(e, id, path) {
            Some(v) => Some(v),
            None => if key_is(x, id, path) {
                Some(x.2)
            } else {
                None
            },
        }),
    decreases e.len(),
{
    if e.len() > 0 {
        assert(e.push(x).skip(1) =~= e.skip(1).push(x));
        assert(e.push(x)[0] == e[0]);
        lemma_last_for_push(e.skip(1), x, id, path);
    } else {
        assert(e.push(x)[0] == x);
        assert(e.push(x).skip(1) =~= Seq::<(String, String, u64)>::empty());
        assert(last_for(Seq::<(String, String, u64)>::empty(), id, path) is None);
    }
}

/// When each rule last handled each file.
pub struct DebounceTable {
    entries: Vec<(String, String, u64)>,
}

impl DebounceTable {
    /// When `rule_id` last handled `path`, as the table records it.
    pub closed spec fn last(&self, rule_id: Seq<char>, path: Seq<char>) -> Option<u64> {
        last_for(self.entries@, rule_id, path)
    }

    /// A table in which nothing was handled yet.
    pub fn new() -> (t: DebounceTable)
        ensures
            forall|id: Seq<char>, path: Seq<char>| #[trigger] t.last(id, path) is None,
    {
        DebounceTable { entries: Vec::new() }
    }

    /// Whether `rule_id` handles a notification about `path` at `now_ms`,
    /// given its `debounce_ms`; when it does, the table records `now_ms` as
    /// the time it last handled the file, and nothing else changes.
    pub fn handles(&mut self, rule_id: &str, path: &str, now_ms: u64, debounce_ms: u64) -> (res: bool)
        ensures
            res == debounce_spec(old(self).last(rule_id@, path@), now_ms, debounce_ms),
            forall|id: Seq<char>, p: Seq<char>|
                #[trigger] final(self).last(id, p) == (if res && id == rule_id@ && p == path@ {
                    Some(now_ms)
                } else {
                    old(self).last(id, p)
                }),
    {
        let n: usize = self.entries.len();
        let ghost e = self.entries@;
        let mut k: usize = 0;
        while k < n
            invariant
                n == self.entries@.len(),
                e == self.entries@,
                k <= n,
                forall|j: int| 0 <= j < k ==> !key_is(#[trigger] e[j], rule_id@, path@),
            ensures
                k <= n,
                forall|j: int| 0 <= j < k ==> !key_is(#[trigger] e[j], rule_id@, path@),
                k < n ==> key_is(e[k as int], rule_id@, path@),
            decreases n - k,
        {
            if same_text(self.entries[k].0.as_str(), rule_id) && same_text(
                self.entries[k].1.as_str(),
                path,
            ) {
                break;
            }
            k = k + 1;
        }
        proof {
            lemma_last_for_skip(e, rule_id@, path@, k as int);
        }
        if k < n {
            assert(key_is(e[k as int], rule_id@, path@));
            assert(e.skip(k as int)[0] == e[k as int]);
            let last = self.entries[k].2;
            let admitted = debounce_admits(Some(last), now_ms, debounce_ms);
            if admitted {
                let x = (String::from_str(rule_id), String::from_str(path), now_ms);
                proof {
                    lemma_last_for_update(e, k as int, x, rule_id@, path@);
                    assert forall|id: Seq<char>, p: Seq<char>|
                        #[trigger] last_for(e.update(k as int, x), id, p) == (if id == rule_id@ && p
                            == path@ {
                            Some(now_ms)
                        } else {
                            last_for(e, id, p)
                        }) by {
                        lemma_last_for_update(e, k as int, x, id, p);
                    }
                }
                self.entries.set(k, x);
            }
            admitted
        } else {
            assert(e.skip(n as int).len() == 0);
            let x = (String::from_str(rule_id), String::from_str(path), now_ms);
            proof {
                assert forall|id: Seq<char>, p: Seq<char>|
                    #[trigger] last_for(e.push(x), id, p) == (if id == rule_id@ && p == path@ {
                        Some(now_ms)
                    } else {
                        last_for(e, id, p)
                    }) by {
                    lemma_last_for_push(e, x, id, p);
                }
            }
            self.entries.push(x);
            true
        }
    }
}

} // verus!
