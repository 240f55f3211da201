use crate::text::str_eq;
use vstd::prelude::*;

verus! {

/// The position of the first announcement from position `i` on that equals
/// `wanted`.
pub open spec fn first_index(wanted: Seq<char>, announced: Seq<Seq<char>>, i: int) -> Option<int>
    decreases announced.len() - i,
{
    if i < 0 || i >= announced.len() {
        None
    } else if announced[i] == wanted {
        Some(i)
    } else {
        first_index(wanted, announced, i + 1)
    }
}

/// Where a `publish(wanted)` waiting on the announcements resolves: at the
/// first track (or data channel) announced under that ID (or label).
pub open spec fn publish_outcome(wanted: Seq<char>, announced: Seq<Seq<char>>) -> Option<int> {
    first_index(wanted, announced, 0)
}

/// Finds, among the tracks announced so far, the one a `publish` call waits
/// for: the first whose ID (or, for data channels, label) is `wanted`.
pub fn find_published(wanted: &str, announced: &Vec<String>) -> (r: Option<usize>)
    ensures
        match r {
            Some(i) => publish_outcome(wanted@, announced@.map_values(|s: String| s@)) == Some(
                i as int,
            ),
            None => publish_outcome(wanted@, announced@.map_values(|s: String| s@)) is None,
        },
{
    let ghost ids = announced@.map_values(|s: String| s@);
    let mut i: usize = 0;
    while i < announced.len()
        invariant
            i <= announced@.len(),
            ids == announced@.map_values(|s: String| s@),
            first_index(wanted@, ids, i as int) == first_index(wanted@, ids, 0),
        decreases announced.len() - i,
    {
        assert(ids[i as int] == announced@[i as int]@);
        if str_eq(announced[i].as_str(), wanted) {
            return Some(i);
        }
        i = i + 1;
    }
    None
}

proof fn lemma_first_index(wanted: Seq<char>, announced: Seq<Seq<char>>, i: int)
    requires
        0 <= i <= announced.len(),
    ensures
        first_index(wanted, announced, i) is Some <==> exists|k: int|
            i <= k < announced.len() && announced[k] == wanted,
        first_index(wanted, announced, i) matches Some(k) ==> i <= k < announced.len()
            && announced[k] == wanted && forall|j: int| i <= j < k ==> announced[j] != wanted,
    decreases announced.len() - i,
{
    if i < announced.len() {
        lemma_first_index(wanted, announced, i + 1);
        if announced[i] != wanted {
            if exists|k: int| i <= k < announced.len() && announced[k] == wanted {
                let k = choose|k: int| i <= k < announced.len() && announced[k] == wanted;
                assert(i + 1 <= k);
            }
        }
    }
}

/// A `publish(id)` resolves exactly when the peer connection announces a
/// track with that ID, and then with the first such announcement.
pub proof fn lemma_publish_resolves_iff_announced(wanted: Seq<char>, announced: Seq<Seq<char>>)
    ensures
        publish_outcome(wanted, announced) is Some <==> announced.contains(wanted),
        publish_outcome(wanted, announced) matches Some(k) ==> 0 <= k < announced.len()
            && announced[k] == wanted && forall|j: int| 0 <= j < k ==> announced[j] != wanted,
{
    lemma_first_index(wanted, announced, 0);
}

} // verus!
