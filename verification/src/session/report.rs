//! What the report after a session picks out: the topics the learner is
//! weak in, and the name of the session's target topic.
use vstd::prelude::*;

use crate::curriculum::Topic;
use crate::learning_items::{double_greater, score_greater};
use crate::text::{copy_str, str_eq};
use crate::vocabulary::MASTERY_THRESHOLD_BITS;

verus! {

/// The score recorded for `id` (a double, by its bit pattern): the last
/// entry for it, as when the entries fill a map one by one.
pub open spec fn score_of(scores: Seq<(String, u64)>, id: Seq<char>) -> Option<u64>
    decreases scores.len(),
{
    if scores.len() == 0 {
        None
    } else if scores.last().0@ == id {
        Some(scores.last().1)
    } else {
        score_of(scores.drop_last(), id)
    }
}

/// Whether the session left a topic weak: it was scored, under the
/// mastery score of 50; an unscored topic counts as mastered.
pub open spec fn is_weak(scores: Seq<(String, u64)>, t: Topic) -> bool {
    match score_of(scores, t.id@) {
        Some(b) => double_greater(MASTERY_THRESHOLD_BITS, b),
        None => false,
    }
}

/// The positions of the weak topics among the first `k` topics, in order.
pub open spec fn weak_upto(topics: Seq<Topic>, scores: Seq<(String, u64)>, k: int) -> Seq<usize>
    decreases k,
{
    if k <= 0 {
        Seq::empty()
    } else {
        weak_upto(topics, scores, k - 1) + if is_weak(scores, topics[k - 1]) {
            seq![(k - 1) as usize]
        } else {
            Seq::empty()
        }
    }
}

fn find_score(scores: &[(String, u64)], id: &str) -> (r: Option<u64>)
    ensures
        r == score_of(scores@, id@),
{
    let mut k: usize = scores.len();
    assert(scores@.take(scores@.len() as int) =~= scores@);
    while k > 0
        invariant
            k <= scores@.len(),
            score_of(scores@, id@) == score_of(scores@.take(k as int), id@),
        decreases k,
    {
        let ghost pre = scores@.take(k as int);
        assert(pre.drop_last() =~= scores@.take(k - 1));
        if str_eq(scores[k - 1].0.as_str(), id) {
            return Some(scores[k - 1].1);
        }
        k = k - 1;
    }
    None
}

/// The positions of the topics that the session left weak (see `is_weak`),
/// in the topics' order, given each scored topic's id and score.
pub fn weak_topic_indices(topics: &[Topic], scores: &[(String, u64)]) -> (r: Vec<usize>)
    ensures
        r@ == weak_upto(topics@, scores@, topics@.len() as int),
{
    let mut r: Vec<usize> = Vec::new();
    let mut i: usize = 0;
    while i < topics.len()
        invariant
            i <= topics@.len(),
            r@ == weak_upto(topics@, scores@, i as int),
        decreases topics@.len() - i,
    {
        let weak = match find_score(scores, topics[i].id.as_str()) {
            Some(b) => score_greater(MASTERY_THRESHOLD_BITS, b),
            None => false,
        };
        if weak {
            r.push(i);
        }
        i = i + 1;
    }
    r
}

/// The first topic with id `id`.
pub open spec fn first_topic(topics: Seq<Topic>, id: Seq<char>) -> Option<int>
    decreases topics.len(),
{
    if topics.len() == 0 {
        None
    } else {
        match first_topic(topics.drop_last(), id) {
            Some(i) => Some(i),
            None => if topics.last().id@ == id {
                Some(topics.len() - 1)
            } else {
                None
            },
        }
    }
}

/// The name of the session's target topic: that of the first topic with
/// the target id; none without a target or such a topic.
pub fn target_topic_name(topics: &[Topic], target_topic_id: Option<&str>) -> (r: Option<String>)
    ensures
        match target_topic_id {
            None => r is None,
            Some(id) => match first_topic(topics@, id@) {
                Some(i) => r matches Some(n) && n@ == topics@[i].name@,
                None => r is None,
            },
        },
{
    match target_topic_id {
        None => None,
        Some(id) => {
            let mut i: usize = 0;
            while i < topics.len()
                invariant
                    target_topic_id == Some(id),
                    i <= topics@.len(),
                    first_topic(topics@.take(i as int), id@) is None,
                decreases topics@.len() - i,
            {
                assert(topics@.take(i + 1).drop_last() =~= topics@.take(i as int));
                if str_eq(topics[i].id.as_str(), id) {
                    proof {
                        assert(topics@.take(i + 1).last() == topics@[i as int]);
                        assert(first_topic(topics@.take(i + 1), id@) == Some(i as int));
                        lemma_first_topic_extends(topics@, id@, i + 1);
                    }
                    return Some(copy_str(topics[i].name.as_str()));
                }
                i = i + 1;
            }
            assert(topics@.take(topics@.len() as int) =~= topics@);
            None
        },
    }
}

proof fn lemma_first_topic_extends(topics: Seq<Topic>, id: Seq<char>, k: int)
    requires
        0 < k <= topics.len(),
        first_topic(topics.take(k), id) is Some,
    ensures
        first_topic(topics, id) == first_topic(topics.take(k), id),
    decreases topics.len() - k,
{
    if k < topics.len() {
        assert(topics.take(k + 1).drop_last() =~= topics.take(k));
        assert(first_topic(topics.take(k + 1), id) == first_topic(topics.take(k), id));
        lemma_first_topic_extends(topics, id, k + 1);
    } else {
        assert(topics.take(k) =~= topics);
    }
}

} // verus!
