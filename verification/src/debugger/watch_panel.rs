//! Watch expressions: added with a fresh id, given the value or error of
//! their evaluation, and removed by id.

use crate::text::str_eq;
use vstd::prelude::*;

verus! {

/// A watched expression, with the value or the error its last evaluation
/// gave.
#[derive(Debug, Clone, PartialEq, Eq)]
pub struct WatchExpression {
    pub id: String,
    pub expression: String,
    pub value: Option<String>,
    pub error: Option<String>,
}

/// Whether `t` is written as a hyphenated UUID: 36 characters with hyphens
/// at the ninth, fourteenth, nineteenth and twenty-fourth.
pub open spec fn is_hyphenated_uuid(t: Seq<char>) -> bool {
    t.len() == 36 && t[8] == '-' && t[13] == '-' && t[18] == '-' && t[23] == '-'
}

/// `uuid::Uuid::new_v4().to_string()`: a random version-4 UUID, written
/// hyphenated. Which one comes out is not stated; its shape is. The call
/// panics when the system gives no random bytes, which no argument can
/// rule out.
#[verifier::external_body]
fn new_watch_id() -> (r: String)
    ensures
        is_hyphenated_uuid(r@),
{
    uuid::Uuid::new_v4().to_string()
}

/// The first index of a watch with id `id`.
pub open spec fn watch_index(ws: Seq<WatchExpression>, id: Seq<char>) -> Option<int> {
    if exists|i: int| 0 <= i < ws.len() && ws[i].id@ == id {
        Some(choose|i: int| 0 <= i < ws.len() && ws[i].id@ == id && forall|j: int| 0 <= j < i ==> ws[j].id@ != id)
    } else {
        None
    }
}

/// The watches of `ws` whose id is not `id`, in order.
pub open spec fn without_watch(ws: Seq<WatchExpression>, id: Seq<char>) -> Seq<WatchExpression> {
    ws.filter(|w: WatchExpression| w.id@ != id)
}

/// Removing by id keeps a list whose watches all have other ids as it is.
pub proof fn lemma_remove_absent_watch(ws: Seq<WatchExpression>, id: Seq<char>)
    requires
        forall|k: int| 0 <= k < ws.len() ==> (#[trigger] ws[k]).id@ != id,
    ensures
        without_watch(ws, id) == ws,
    decreases ws.len(),
{
    reveal(Seq::filter);
    if ws.len() > 0 {
        let p = ws.drop_last();
        assert forall|k: int| 0 <= k < p.len() implies (#[trigger] p[k]).id@ != id by {
            assert(p[k] == ws[k]);
        }
        lemma_remove_absent_watch(p, id);
        assert(ws.last().id@ != id);
        assert(p.push(ws.last()) =~= ws);
    }
}

/// A watch added under an id no other watch has is the one found by that
/// id, and removing that id gives back the list from before.
pub proof fn lemma_add_then_remove_watch(ws: Seq<WatchExpression>, w: WatchExpression)
    requires
        forall|k: int| 0 <= k < ws.len() ==> (#[trigger] ws[k]).id@ != w.id@,
    ensures
        watch_index(ws.push(w), w.id@) == Some(ws.len() as int),
        without_watch(ws.push(w), w.id@) == ws,
{
    let s = ws.push(w);
    assert(s[ws.len() as int].id@ == w.id@);
    let i = choose|i: int| 0 <= i < s.len() && s[i].id@ == w.id@ && forall|j: int| 0 <= j < i ==> s[j].id@ != w.id@;
    if i < ws.len() {
        assert(s[i] == ws[i]);
    }
    assert(forall|j: int| 0 <= j < ws.len() ==> s[j] == ws[j]);
    lemma_remove_absent_watch(ws, w.id@);
    reveal(Seq::filter);
    assert(s.drop_last() =~= ws);
}

/// Adds a watch of `expression` under `id`, not yet evaluated; nothing for
/// an empty expression. Whether it was added.
pub fn add_watch_with_id(watches: &mut Vec<WatchExpression>, expression: &str, id: String) -> (r: bool)
    ensures
        r == (expression@.len() > 0),
        !r ==> final(watches)@ == old(watches)@,
        r ==> final(watches)@.len() == old(watches)@.len() + 1
            && final(watches)@.drop_last() == old(watches)@
            && final(watches)@.last().id@ == id@
            && final(watches)@.last().expression@ == expression@
            && final(watches)@.last().value is None
            && final(watches)@.last().error is None,
{
    if expression.is_empty() {
        return false;
    }
    watches.push(WatchExpression { id, expression: expression.to_string(), value: None, error: None });
    assert(watches@.drop_last() =~= old(watches)@);
    true
}

/// Adds a watch of `expression` under a fresh random id, which it returns;
/// nothing for an empty expression.
pub fn add_watch(watches: &mut Vec<WatchExpression>, expression: &str) -> (r: Option<String>)
    ensures
        (r is Some) == (expression@.len() > 0),
        r is None ==> final(watches)@ == old(watches)@,
        r matches Some(id) ==> final(watches)@.len() == old(watches)@.len() + 1
            && final(watches)@.drop_last() == old(watches)@
            && final(watches)@.last().id@ == id@
            && is_hyphenated_uuid(id@)
            && final(watches)@.last().expression@ == expression@
            && final(watches)@.last().value is None
            && final(watches)@.last().error is None,
{
    if expression.is_empty() {
        return None;
    }
    let id = new_watch_id();
    let kept = id.clone();
    add_watch_with_id(watches, expression, id);
    Some(kept)
}

fn find_watch(watches: &Vec<WatchExpression>, id: &str) -> (r: Option<usize>)
    ensures
        match r {
            Some(i) => i < watches@.len() && watch_index(watches@, id@) == Some(i as int),
            None => watch_index(watches@, id@) is None,
        },
{
    let mut i: usize = 0;
    while i < watches.len()
        invariant
            i <= watches@.len(),
            forall|j: int| 0 <= j < i ==> watches@[j].id@ != id@,
        decreases watches@.len() - i,
    {
        if str_eq(watches[i].id.as_str(), id) {
            proof {
                let ws = watches@;
                let k = choose|k: int| 0 <= k < ws.len() && ws[k].id@ == id@ && forall|j: int| 0 <= j < k ==> ws[j].id@ != id@;
                assert(ws[i as int].id@ == id@);
                if k < i {
                } else if k > i {
                    assert(ws[i as int].id@ != id@);
                }
                assert(k == i);
            }
            return Some(i);
        }
        i += 1;
    }
    None
}

/// Records what evaluating watch `id` gave: its value (the error cleared)
/// or its error (the value cleared). Only the first watch with that id
/// changes; without one, nothing does.
pub fn record_evaluation(watches: &mut Vec<WatchExpression>, id: &str, result: Result<String, String>)
    ensures
        match watch_index(old(watches)@, id@) {
            Some(i) => final(watches)@.len() == old(watches)@.len()
                && (forall|j: int| 0 <= j < old(watches)@.len() && j != i ==> #[trigger] final(watches)@[j] == old(watches)@[j])
                && final(watches)@[i].id == old(watches)@[i].id
                && final(watches)@[i].expression == old(watches)@[i].expression
                && match result {
                    Ok(v) => final(watches)@[i].value == Some(v) && final(watches)@[i].error is None,
                    Err(e) => final(watches)@[i].value is None && final(watches)@[i].error == Some(e),
                },
            None => final(watches)@ == old(watches)@,
        },
{
    match find_watch(watches, id) {
        Some(i) => {
            let w = watches.remove(i);
            let updated = match result {
                Ok(v) => WatchExpression { id: w.id, expression: w.expression, value: Some(v), error: None },
                Err(e) => WatchExpression { id: w.id, expression: w.expression, value: None, error: Some(e) },
            };
            watches.insert(i, updated);
        },
        None => {},
    }
}

/// Removes every watch with id `id`.
pub fn remove_watch(watches: &mut Vec<WatchExpression>, id: &str)
    ensures
        final(watches)@ == without_watch(old(watches)@, id@),
{
    let ghost orig = watches@;
    let mut kept: Vec<WatchExpression> = Vec::new();
    let total: usize = watches.len();
    let mut k: usize = 0;
    while watches.len() > 0
        invariant
            k + watches@.len() == orig.len(),
            orig.len() == total,
            watches@ == orig.skip(k as int),
            kept@ == without_watch(orig.take(k as int), id@),
        decreases watches@.len(),
    {
        let w = watches.remove(0);
        proof {
            assert(orig.take(k + 1).drop_last() =~= orig.take(k as int));
            assert(orig.take(k + 1).last() == orig[k as int]);
            assert(w == orig[k as int]);
            let t = orig.take(k + 1);
            reveal(Seq::filter);
            assert(t.filter(|x: WatchExpression| x.id@ != id@) == if w.id@ != id@ {
                t.drop_last().filter(|x: WatchExpression| x.id@ != id@).push(w)
            } else {
                t.drop_last().filter(|x: WatchExpression| x.id@ != id@)
            });
        }
        if !str_eq(w.id.as_str(), id) {
            kept.push(w);
        }
        k += 1;
        proof {
            assert(watches@ =~= orig.skip(k as int));
        }
    }
    assert(orig.take(k as int) =~= orig);
    *watches = kept;
}

} // verus!
