//! Counting what a session practises.
use vstd::prelude::*;

use crate::session::models::{
    copy_error, error_views, AnalysisResult, Exercise, GrammarError, GrammarErrorType,
    GrammarErrorView, SemanticVerdict, SentenceAnalysis,
};
use crate::text::{seq_eq, string_from_chars};
use crate::words::{
    chars_of_all, dedup_seq, dedup_words, lemma_dedup_seq_contains, lemma_dedup_seq_distinct, views,
};

verus! {

/// The topic ids an exercise is tagged with: its target topics, then its
/// side topics.
pub open spec fn exercise_topic_ids(e: Exercise) -> Seq<Seq<char>> {
    e.target_topic_ids.deep_view() + e.side_topic_ids.deep_view()
}

/// The module units an exercise practises.
pub open spec fn exercise_unit_ids(e: Exercise) -> Seq<Seq<char>> {
    match e.target_unit_ids {
        Some(v) => v.deep_view(),
        None => Seq::empty(),
    }
}

/// How many of the exercises are tagged with `id`, as a target or a side
/// topic; an exercise tagged twice with it counts once.
pub open spec fn tagged_count(exercises: Seq<Exercise>, id: Seq<char>) -> nat
    decreases exercises.len(),
{
    if exercises.len() == 0 {
        0
    } else {
        tagged_count(exercises.drop_last(), id) + if exercise_topic_ids(exercises.last()).contains(
            id,
        ) {
            1nat
        } else {
            0nat
        }
    }
}

proof fn lemma_tagged_count_bound(exercises: Seq<Exercise>, id: Seq<char>)
    ensures
        tagged_count(exercises, id) <= exercises.len(),
    decreases exercises.len(),
{
    if exercises.len() > 0 {
        lemma_tagged_count_bound(exercises.drop_last(), id);
    }
}

/// The index of `id` among the first `upto` entries of `keys`.
fn index_among(keys: &Vec<Vec<char>>, upto: usize, id: &Vec<char>) -> (r: Option<usize>)
    requires
        upto <= keys@.len(),
    ensures
        r matches Some(p) ==> p < upto && keys@[p as int]@ == id@,
        r is None ==> !views(keys@).take(upto as int).contains(id@),
{
    let mut k: usize = 0;
    while k < upto
        invariant
            upto <= keys@.len(),
            k <= upto,
            forall|q: int| 0 <= q < k ==> keys@[q]@ != id@,
        decreases upto - k,
    {
        if seq_eq(&keys[k], id) {
            return Some(k);
        }
        k = k + 1;
    }
    proof {
        if views(keys@).take(upto as int).contains(id@) {
            let q = choose|q: int| 0 <= q < upto && views(keys@).take(upto as int)[q] == id@;
            assert(keys@[q]@ == id@);
        }
    }
    None
}

/// For each topic of a session, the number of its exercises tagged with
/// it. Every id occurs once in the result (in the order of first
/// appearance), and every id an exercise is tagged with occurs.
pub fn count_topic_occurrences(exercises: &[Exercise]) -> (r: Vec<(String, usize)>)
    ensures
        forall|i: int, j: int| 0 <= i < j < r@.len() ==> r@[i].0@ != r@[j].0@,
        forall|i: int|
            0 <= i < r@.len() ==> (#[trigger] r@[i]).1 == tagged_count(exercises@, r@[i].0@)
                && r@[i].1 > 0,
        forall|id: Seq<char>|
            tagged_count(exercises@, id) > 0 ==> exists|i: int|
                0 <= i < r@.len() && (#[trigger] r@[i]).0@ == id,
{
    let mut keys: Vec<Vec<char>> = Vec::new();
    let mut counts: Vec<usize> = Vec::new();
    let n = exercises.len();
    let mut i: usize = 0;
    while i < n
        invariant
            n == exercises@.len(),
            i <= exercises@.len(),
            keys@.len() == counts@.len(),
            forall|a: int, b: int| 0 <= a < b < keys@.len() ==> keys@[a]@ != keys@[b]@,
            forall|k: int|
                0 <= k < keys@.len() ==> counts@[k] == tagged_count(
                    exercises@.take(i as int),
                    #[trigger] keys@[k]@,
                ) && counts@[k] > 0,
            forall|id: Seq<char>|
                tagged_count(exercises@.take(i as int), id) > 0 ==> #[trigger] views(
                    keys@,
                ).contains(id),
        decreases exercises.len() - i,
    {
        let e = &exercises[i];
        let mut ids = chars_of_all(&e.target_topic_ids);
        let mut side = chars_of_all(&e.side_topic_ids);
        let ghost target_views = views(ids@);
        let ghost side_views = views(side@);
        ids.append(&mut side);
        let ghost lv = views(ids@);
        assert(lv =~= exercise_topic_ids(exercises@[i as int])) by {
            assert(lv =~= target_views + side_views);
        }
        let ghost done = exercises@.take(i as int);
        let mut j: usize = 0;
        while j < ids.len()
            invariant
                n == exercises@.len(),
                i < exercises@.len(),
                done == exercises@.take(i as int),
                lv == views(ids@),
                lv == exercise_topic_ids(exercises@[i as int]),
                j <= ids@.len(),
                keys@.len() == counts@.len(),
                forall|a: int, b: int| 0 <= a < b < keys@.len() ==> keys@[a]@ != keys@[b]@,
                forall|k: int|
                    0 <= k < keys@.len() ==> counts@[k] == tagged_count(done, #[trigger] keys@[k]@)
                        + (if lv.take(j as int).contains(keys@[k]@) {
                        1nat
                    } else {
                        0nat
                    }) && counts@[k] > 0,
                forall|id: Seq<char>|
                    tagged_count(done, id) > 0 || lv.take(j as int).contains(id) ==> #[trigger] views(
                        keys@,
                    ).contains(id),
            decreases ids.len() - j,
        {
            let ghost id = lv[j as int];
            assert(ids@[j as int]@ == id);
            let ghost next_take = lv.take(j + 1);
            let ghost cur_take = lv.take(j as int);
            let ghost keys_before = views(keys@);
            assert forall|x: Seq<char>|
                next_take.contains(x) <==> (cur_take.contains(x) || x == id) by {
                if next_take.contains(x) {
                    let q = choose|q: int| 0 <= q < next_take.len() && #[trigger] next_take[q] == x;
                    if q < j {
                        assert(cur_take[q] == x);
                    }
                }
                if cur_take.contains(x) {
                    let q = choose|q: int| 0 <= q < cur_take.len() && #[trigger] cur_take[q] == x;
                    assert(next_take[q] == x);
                }
                if x == id {
                    assert(next_take[j as int] == x);
                }
            }
            let seen = index_among(&ids, j, &ids[j]);
            if let Some(q) = seen {
                assert(cur_take[q as int] == id);
            } else {
                proof {
                    lemma_tagged_count_bound(done, id);
                }
                match index_among(&keys, keys.len(), &ids[j]) {
                    Some(p) => {
                        assert(keys@[p as int]@ == id);
                        assert(!lv.take(j as int).contains(id));
                        assert(counts@[p as int] == tagged_count(done, keys@[p as int]@));
                        assert(counts@[p as int] <= i);
                        let c = counts[p] + 1;
                        counts.set(p, c);
                        assert(views(keys@)[p as int] == id);
                    },
                    None => {
                        assert(!views(keys@).contains(id)) by {
                            assert(views(keys@).take(keys@.len() as int) =~= views(keys@));
                        }
                        let ghost old_keys = views(keys@);
                        let key = ids[j].clone();
                        keys.push(key);
                        counts.push(1);
                        assert(views(keys@) =~= old_keys.push(id));
                        assert(views(keys@)[old_keys.len() as int] == id);
                        assert(tagged_count(done, id) == 0);
                    },
                }
            }
            assert forall|x: Seq<char>| #[trigger] keys_before.contains(x) implies views(
                keys@,
            ).contains(x) by {
                let q = choose|q: int| 0 <= q < keys_before.len() && #[trigger] keys_before[q] == x;
                assert(views(keys@)[q] == x);
            }
            assert forall|x: Seq<char>|
                tagged_count(done, x) > 0 || next_take.contains(x) implies #[trigger] views(
                keys@,
            ).contains(x) by {
                if x != id && next_take.contains(x) {
                    assert(cur_take.contains(x));
                }
                if x != id {
                    assert(keys_before.contains(x));
                }
            }
            j = j + 1;
        }
        proof {
            assert(lv.take(ids@.len() as int) =~= lv);
            let next = exercises@.take(i + 1);
            assert(next.drop_last() =~= done);
            assert(next.last() == exercises@[i as int]);
        }
        i = i + 1;
    }
    assert(exercises@.take(exercises@.len() as int) =~= exercises@);
    let mut r: Vec<(String, usize)> = Vec::new();
    let mut k: usize = 0;
    while k < keys.len()
        invariant
            k <= keys@.len(),
            keys@.len() == counts@.len(),
            r@.len() == k,
            forall|q: int| 0 <= q < k ==> (#[trigger] r@[q]).0@ == keys@[q]@ && r@[q].1 == counts@[q],
        decreases keys.len() - k,
    {
        r.push((string_from_chars(keys[k].as_slice()), counts[k]));
        k = k + 1;
    }
    proof {
        assert forall|id: Seq<char>| tagged_count(exercises@, id) > 0 implies exists|q: int|
            0 <= q < r@.len() && (#[trigger] r@[q]).0@ == id by {
            assert(views(keys@).contains(id));
            let q = choose|q: int| 0 <= q < keys@.len() && views(keys@)[q] == id;
            assert(r@[q].0@ == id);
        }
    }
    r
}

/// The position of the last sentence numbered `n`.
pub open spec fn last_sentence_numbered(sentences: Seq<SentenceAnalysis>, n: i32) -> Option<int>
    decreases sentences.len(),
{
    if sentences.len() == 0 {
        None
    } else if sentences.last().sentence_number == n {
        Some(sentences.len() - 1)
    } else {
        last_sentence_numbered(sentences.drop_last(), n)
    }
}

fn find_last_sentence(sentences: &Vec<SentenceAnalysis>, n: i32) -> (r: Option<usize>)
    ensures
        r matches Some(j) ==> last_sentence_numbered(sentences@, n) == Some(j as int) && j
            < sentences@.len(),
        r is None ==> last_sentence_numbered(sentences@, n) is None,
{
    let mut k: usize = sentences.len();
    assert(sentences@.take(sentences@.len() as int) =~= sentences@);
    while k > 0
        invariant
            k <= sentences@.len(),
            last_sentence_numbered(sentences@, n) == last_sentence_numbered(
                sentences@.take(k as int),
                n,
            ),
        decreases k,
    {
        let ghost pre = sentences@.take(k as int);
        assert(pre.drop_last() =~= sentences@.take(k - 1));
        assert(pre.last() == sentences@[k - 1]);
        if sentences[k - 1].sentence_number == n {
            return Some(k - 1);
        }
        k = k - 1;
    }
    assert(sentences@.take(0) =~= Seq::<SentenceAnalysis>::empty());
    None
}

/// The errors that exercise number `k` (from 0) files under `topic`: the
/// errors of the last sentence numbered `k + 1`, when the exercise is
/// tagged with the topic.
pub open spec fn exercise_topic_errors(
    exercises: Seq<Exercise>,
    sentences: Seq<SentenceAnalysis>,
    topic: Seq<char>,
    k: int,
) -> Seq<GrammarErrorView> {
    match last_sentence_numbered(sentences, (k + 1) as i32) {
        Some(j) => if exercise_topic_ids(exercises[k]).contains(topic) {
            error_views(sentences[j].errors@)
        } else {
            Seq::empty()
        },
        None => Seq::empty(),
    }
}

/// The errors that the first `k` exercises file under `topic`, in order.
pub open spec fn topic_errors_upto(
    exercises: Seq<Exercise>,
    sentences: Seq<SentenceAnalysis>,
    topic: Seq<char>,
    k: int,
) -> Seq<GrammarErrorView>
    decreases k,
{
    if k <= 0 {
        Seq::empty()
    } else {
        topic_errors_upto(exercises, sentences, topic, k - 1) + exercise_topic_errors(
            exercises,
            sentences,
            topic,
            k - 1,
        )
    }
}

fn index_of_key(keys: &Vec<Vec<char>>, id: &Vec<char>) -> (r: Option<usize>)
    ensures
        r matches Some(p) ==> p < keys@.len() && keys@[p as int]@ == id@,
        r is None ==> !views(keys@).contains(id@),
{
    let r = index_among(keys, keys.len(), id);
    assert(views(keys@).take(keys@.len() as int) =~= views(keys@));
    r
}

fn copy_errors(errors: &Vec<GrammarError>) -> (r: Vec<GrammarError>)
    ensures
        error_views(r@) == error_views(errors@),
{
    let mut r: Vec<GrammarError> = Vec::new();
    let mut i: usize = 0;
    while i < errors.len()
        invariant
            i <= errors@.len(),
            error_views(r@) == error_views(errors@).take(i as int),
        decreases errors@.len() - i,
    {
        let ghost before = error_views(r@);
        r.push(copy_error(&errors[i]));
        assert(error_views(r@) =~= before.push(error_views(errors@)[i as int]));
        assert(error_views(errors@).take(i + 1) =~= error_views(errors@).take(i as int).push(
            error_views(errors@)[i as int],
        ));
        i = i + 1;
    }
    assert(error_views(errors@).take(errors@.len() as int) =~= error_views(errors@));
    r
}

/// For each topic, the errors filed under it by a session's exercises: an
/// exercise files the errors of the sentence with its number (counted from
/// 1, the last such sentence) under every topic it is tagged with. Only
/// topics with errors occur, each once.
pub fn collect_topic_errors(exercises: &[Exercise], analysis: &AnalysisResult) -> (r: Vec<
    (String, Vec<GrammarError>),
>)
    ensures
        forall|i: int, j: int| 0 <= i < j < r@.len() ==> r@[i].0@ != r@[j].0@,
        forall|i: int|
            0 <= i < r@.len() ==> error_views((#[trigger] r@[i]).1@) == topic_errors_upto(
                exercises@,
                analysis.sentences@,
                r@[i].0@,
                exercises@.len() as int,
            ) && r@[i].1@.len() > 0,
        forall|id: Seq<char>|
            topic_errors_upto(exercises@, analysis.sentences@, id, exercises@.len() as int).len()
                > 0 ==> exists|i: int| 0 <= i < r@.len() && (#[trigger] r@[i]).0@ == id,
{
    let ghost sents = analysis.sentences@;
    let mut keys: Vec<Vec<char>> = Vec::new();
    let mut lists: Vec<Vec<GrammarError>> = Vec::new();
    let n = exercises.len();
    let mut k: usize = 0;
    while k < n
        invariant
            n == exercises@.len(),
            sents == analysis.sentences@,
            k <= n,
            keys@.len() == lists@.len(),
            forall|a: int, b: int| 0 <= a < b < keys@.len() ==> keys@[a]@ != keys@[b]@,
            forall|q: int|
                0 <= q < keys@.len() ==> error_views(lists@[q]@) == topic_errors_upto(
                    exercises@,
                    sents,
                    #[trigger] keys@[q]@,
                    k as int,
                ) && lists@[q]@.len() > 0,
            forall|id: Seq<char>|
                topic_errors_upto(exercises@, sents, id, k as int).len() > 0 ==> #[trigger] views(
                    keys@,
                ).contains(id),
        decreases n - k,
    {
        let ghost kk = k as int;
        let found = find_last_sentence(&analysis.sentences, (k + 1) as i32);
        if let Some(j) = found {
            let errors = &analysis.sentences[j].errors;
            if errors.len() > 0 {
                let e = &exercises[k];
                let mut ids = chars_of_all(&e.target_topic_ids);
                let mut side = chars_of_all(&e.side_topic_ids);
                let ghost tv = views(ids@);
                let ghost sv = views(side@);
                ids.append(&mut side);
                assert(views(ids@) =~= tv + sv);
                assert(views(ids@) =~= exercise_topic_ids(exercises@[kk]));
                let u = dedup_words(&ids);
                let ghost uv = views(u@);
                proof {
                    lemma_dedup_seq_distinct(views(ids@));
                    assert forall|x: Seq<char>| uv.contains(x) <==> exercise_topic_ids(
                        exercises@[kk],
                    ).contains(x) by {
                        lemma_dedup_seq_contains(views(ids@), x);
                    }
                }
                let ghost ev = error_views(errors@);
                let mut p: usize = 0;
                while p < u.len()
                    invariant
                        n == exercises@.len(),
                        sents == analysis.sentences@,
                        kk == k,
                        k < n,
                        last_sentence_numbered(sents, (kk + 1) as i32) == Some(j as int),
                        j < sents.len(),
                        ev == error_views(sents[j as int].errors@),
                        ev == error_views(errors@),
                        ev.len() > 0,
                        uv == views(u@),
                        forall|a: int, b: int| 0 <= a < b < uv.len() ==> uv[a] != uv[b],
                        forall|x: Seq<char>|
                            uv.contains(x) <==> exercise_topic_ids(exercises@[kk]).contains(x),
                        p <= u@.len(),
                        keys@.len() == lists@.len(),
                        forall|a: int, b: int| 0 <= a < b < keys@.len() ==> keys@[a]@ != keys@[b]@,
                        forall|q: int|
                            0 <= q < keys@.len() ==> error_views(lists@[q]@) == topic_errors_upto(
                                exercises@,
                                sents,
                                #[trigger] keys@[q]@,
                                kk,
                            ) + (if uv.take(p as int).contains(keys@[q]@) {
                                ev
                            } else {
                                Seq::empty()
                            }) && lists@[q]@.len() > 0,
                        forall|id: Seq<char>|
                            topic_errors_upto(exercises@, sents, id, kk).len() > 0 || uv.take(
                                p as int,
                            ).contains(id) ==> #[trigger] views(keys@).contains(id),
                    decreases u@.len() - p,
                {
                    let ghost topic = uv[p as int];
                    let ghost cur = uv.take(p as int);
                    let ghost next = uv.take(p + 1);
                    let ghost keys_before = views(keys@);
                    assert forall|x: Seq<char>| next.contains(x) <==> (cur.contains(x) || x == topic) by {
                        if next.contains(x) {
                            let q = choose|q: int| 0 <= q < next.len() && #[trigger] next[q] == x;
                            if q < p {
                                assert(cur[q] == x);
                            }
                        }
                        if cur.contains(x) {
                            let q = choose|q: int| 0 <= q < cur.len() && #[trigger] cur[q] == x;
                            assert(next[q] == x);
                        }
                        if x == topic {
                            assert(next[p as int] == x);
                        }
                    }
                    assert(!cur.contains(topic)) by {
                        if cur.contains(topic) {
                            let q = choose|q: int| 0 <= q < cur.len() && #[trigger] cur[q] == topic;
                            assert(uv[q] == uv[p as int]);
                        }
                    }
                    let copies = copy_errors(errors);
                    let ghost lists_before = lists@;
                    let ghost raw_keys_before = keys@;
                    match index_of_key(&keys, &u[p]) {
                        Some(q) => {
                            let mut list = lists.remove(q);
                            let ghost lv = list@;
                            let mut more = copies;
                            let ghost mv = more@;
                            list.append(&mut more);
                            assert(list@ =~= lv + mv);
                            assert(error_views(list@) =~= error_views(lv) + error_views(mv));
                            lists.insert(q, list);
                            assert forall|q2: int| 0 <= q2 < lists@.len() && q2 != q implies lists@[q2]
                                == lists_before[q2] by {}
                            assert(keys@[q as int]@ == topic);
                            assert(views(keys@)[q as int] == topic);
                            assert forall|q2: int| 0 <= q2 < keys@.len() implies error_views(
                                lists@[q2]@,
                            ) == topic_errors_upto(exercises@, sents, #[trigger] keys@[q2]@, kk) + (
                            if next.contains(keys@[q2]@) {
                                ev
                            } else {
                                Seq::empty()
                            }) && lists@[q2]@.len() > 0 by {
                                if q2 == q {
                                    assert(lists@[q2]@ == list@);
                                } else {
                                    assert(keys@[q2]@ != topic);
                                }
                            }
                        },
                        None => {
                            let ghost old_keys = views(keys@);
                            let ghost cv = copies@;
                            keys.push(u[p].clone());
                            lists.push(copies);
                            assert(views(keys@) =~= old_keys.push(topic));
                            assert(views(keys@)[old_keys.len() as int] == topic);
                            assert(topic_errors_upto(exercises@, sents, topic, kk).len() == 0);
                            assert(topic_errors_upto(exercises@, sents, topic, kk) =~= Seq::<
                                GrammarErrorView,
                            >::empty());
                            assert forall|q2: int| 0 <= q2 < keys@.len() implies error_views(
                                lists@[q2]@,
                            ) == topic_errors_upto(exercises@, sents, #[trigger] keys@[q2]@, kk) + (
                            if next.contains(keys@[q2]@) {
                                ev
                            } else {
                                Seq::empty()
                            }) && lists@[q2]@.len() > 0 by {
                                if q2 == raw_keys_before.len() {
                                    assert(keys@[q2]@ == topic);
                                    assert(lists@[q2]@ == cv);
                                    assert(error_views(cv).len() == ev.len());
                                } else {
                                    assert(keys@[q2] == raw_keys_before[q2]);
                                    assert(lists@[q2] == lists_before[q2]);
                                    assert(keys@[q2]@ != topic) by {
                                        if keys@[q2]@ == topic {
                                            assert(old_keys[q2] == topic);
                                        }
                                    }
                                }
                            }
                        },
                    }
                    assert forall|x: Seq<char>| #[trigger] keys_before.contains(x) implies views(
                        keys@,
                    ).contains(x) by {
                        let q = choose|q: int| 0 <= q < keys_before.len() && #[trigger] keys_before[q]
                            == x;
                        assert(views(keys@)[q] == x);
                    }
                    assert(views(keys@).contains(topic));
                    assert forall|x: Seq<char>|
                        topic_errors_upto(exercises@, sents, x, kk).len() > 0 || next.contains(
                            x,
                        ) implies #[trigger] views(keys@).contains(x) by {
                        if x != topic && next.contains(x) {
                            assert(cur.contains(x));
                        }
                        if x != topic {
                            assert(keys_before.contains(x));
                        }
                    }
                    p = p + 1;
                }
                proof {
                    assert(uv.take(u@.len() as int) =~= uv);
                    assert forall|x: Seq<char>| topic_errors_upto(exercises@, sents, x, kk + 1)
                        == topic_errors_upto(exercises@, sents, x, kk) + (if uv.contains(x) {
                        ev
                    } else {
                        Seq::empty()
                    }) by {
                        assert(kk + 1 - 1 == kk);
                    }
                }
            } else {
                proof {
                    assert forall|x: Seq<char>| topic_errors_upto(exercises@, sents, x, kk + 1)
                        =~= topic_errors_upto(exercises@, sents, x, kk) by {
                        assert(error_views(sents[j as int].errors@).len() == 0);
                    }
                }
            }
        } else {
            proof {
                assert forall|x: Seq<char>| topic_errors_upto(exercises@, sents, x, kk + 1)
                    =~= topic_errors_upto(exercises@, sents, x, kk) by {}
            }
        }
        k = k + 1;
    }
    let mut r: Vec<(String, Vec<GrammarError>)> = Vec::new();
    let ghost all_keys = keys@;
    let ghost all_lists = lists@;
    let total = keys.len();
    assert(all_lists.len() == total);
    let mut done: usize = 0;
    while keys.len() > 0
        invariant
            total == all_keys.len(),
            total == all_lists.len(),
            keys@.len() == lists@.len(),
            done + keys@.len() == total,
            keys@ == all_keys.skip(done as int),
            lists@ == all_lists.skip(done as int),
            r@.len() == done,
            forall|q: int|
                0 <= q < done ==> (#[trigger] r@[q]).0@ == all_keys[q]@ && r@[q].1 == all_lists[q],
        decreases keys@.len(),
    {
        let ghost old_keys = keys@;
        let ghost old_lists = lists@;
        let key = keys.remove(0);
        let list = lists.remove(0);
        assert(list == all_lists[done as int]);
        assert(key == all_keys[done as int]);
        r.push((string_from_chars(key.as_slice()), list));
        assert(keys@ =~= all_keys.skip(done + 1));
        assert(lists@ =~= all_lists.skip(done + 1));
        done = done + 1;
    }
    proof {
        assert forall|id: Seq<char>|
            topic_errors_upto(exercises@, sents, id, n as int).len() > 0 implies exists|i: int|
                0 <= i < r@.len() && (#[trigger] r@[i]).0@ == id by {
            assert(views(all_keys).contains(id));
            let q = choose|q: int| 0 <= q < all_keys.len() && views(all_keys)[q] == id;
            assert(r@[q].0@ == id);
        }
    }
    r
}

/// The penalty, in points, of one error of a wrong sentence: 15, 8, 3 and
/// 1 by severity.
pub open spec fn wrong_weight(t: GrammarErrorType) -> nat {
    match t {
        GrammarErrorType::Critical => 15,
        GrammarErrorType::Major => 8,
        GrammarErrorType::Minor => 3,
        GrammarErrorType::Spelling => 1,
    }
}

/// The penalty, in half points, of one error of an acceptable sentence:
/// 10, 5, 2 and 0.5 points by severity, a gentler scale than
/// `wrong_weight`.
pub open spec fn acceptable_weight_halves(t: GrammarErrorType) -> nat {
    match t {
        GrammarErrorType::Critical => 20,
        GrammarErrorType::Major => 10,
        GrammarErrorType::Minor => 4,
        GrammarErrorType::Spelling => 1,
    }
}

/// The sum of the wrong-sentence penalties of the errors.
pub open spec fn wrong_sum(ts: Seq<GrammarErrorType>) -> nat
    decreases ts.len(),
{
    if ts.len() == 0 {
        0
    } else {
        wrong_sum(ts.drop_last()) + wrong_weight(ts.last())
    }
}

/// The sum of the acceptable-sentence penalties of the errors, in half
/// points.
pub open spec fn acceptable_sum_halves(ts: Seq<GrammarErrorType>) -> nat
    decreases ts.len(),
{
    if ts.len() == 0 {
        0
    } else {
        acceptable_sum_halves(ts.drop_last()) + acceptable_weight_halves(ts.last())
    }
}

/// `n`, but at most `c`.
pub open spec fn capped(n: nat, c: nat) -> nat {
    if n < c {
        n
    } else {
        c
    }
}

/// The severities of the errors.
pub open spec fn error_types(es: Seq<GrammarError>) -> Seq<GrammarErrorType> {
    Seq::new(es.len(), |i: int| es[i].error_type)
}

/// The penalty of a wrong sentence: the sum of its errors' penalties,
/// capped at 40.
pub open spec fn error_penalty_spec(ts: Seq<GrammarErrorType>) -> nat {
    capped(wrong_sum(ts), 40)
}

/// The score of a sentence judged by its errors: 100 without errors, else
/// 50 less the penalty (so at least 10).
pub open spec fn error_based_score_spec(ts: Seq<GrammarErrorType>) -> nat {
    if ts.len() == 0 {
        100
    } else {
        (50 - error_penalty_spec(ts)) as nat
    }
}

/// The score of an exercise, in half points, from the verdict on its
/// sentence (none when the sentence was not analysed) and the errors that
/// count: 100 for a correct sentence; 90 less the acceptable-sentence
/// penalties, but at least 70, for an acceptable one; otherwise the score
/// by errors.
pub open spec fn score_halves(verdict: Option<SemanticVerdict>, ts: Seq<GrammarErrorType>) -> nat {
    match verdict {
        Some(SemanticVerdict::Correct) => 200,
        Some(SemanticVerdict::Acceptable) => (180 - capped(acceptable_sum_halves(ts), 40)) as nat,
        _ => 2 * error_based_score_spec(ts),
    }
}

fn types_of(errors: &[GrammarError]) -> (r: Vec<GrammarErrorType>)
    ensures
        r@ == error_types(errors@),
{
    let mut r: Vec<GrammarErrorType> = Vec::new();
    let mut i: usize = 0;
    while i < errors.len()
        invariant
            i <= errors@.len(),
            r@ == error_types(errors@).take(i as int),
        decreases errors@.len() - i,
    {
        r.push(errors[i].error_type);
        assert(error_types(errors@).take(i + 1) =~= error_types(errors@).take(i as int).push(
            errors@[i as int].error_type,
        ));
        i = i + 1;
    }
    assert(error_types(errors@).take(errors@.len() as int) =~= error_types(errors@));
    r
}

fn wrong_weight_of(t: GrammarErrorType) -> (r: u64)
    ensures
        r == wrong_weight(t),
{
    match t {
        GrammarErrorType::Critical => 15,
        GrammarErrorType::Major => 8,
        GrammarErrorType::Minor => 3,
        GrammarErrorType::Spelling => 1,
    }
}

fn acceptable_weight_of(t: GrammarErrorType) -> (r: u64)
    ensures
        r == acceptable_weight_halves(t),
{
    match t {
        GrammarErrorType::Critical => 20,
        GrammarErrorType::Major => 10,
        GrammarErrorType::Minor => 4,
        GrammarErrorType::Spelling => 1,
    }
}

fn capped_wrong_sum(ts: &Vec<GrammarErrorType>) -> (r: u64)
    ensures
        r == capped(wrong_sum(ts@), 40),
{
    let mut acc: u64 = 0;
    let mut i: usize = 0;
    while i < ts.len()
        invariant
            i <= ts@.len(),
            acc == capped(wrong_sum(ts@.take(i as int)), 40),
        decreases ts@.len() - i,
    {
        assert(ts@.take(i + 1).drop_last() =~= ts@.take(i as int));
        let w = wrong_weight_of(ts[i]);
        acc = if acc + w < 40 {
            acc + w
        } else {
            40
        };
        i = i + 1;
    }
    assert(ts@.take(ts@.len() as int) =~= ts@);
    acc
}

fn capped_acceptable_sum(ts: &Vec<GrammarErrorType>) -> (r: u64)
    ensures
        r == capped(acceptable_sum_halves(ts@), 40),
{
    let mut acc: u64 = 0;
    let mut i: usize = 0;
    while i < ts.len()
        invariant
            i <= ts@.len(),
            acc == capped(acceptable_sum_halves(ts@.take(i as int)), 40),
        decreases ts@.len() - i,
    {
        assert(ts@.take(i + 1).drop_last() =~= ts@.take(i as int));
        let w = acceptable_weight_of(ts[i]);
        acc = if acc + w < 40 {
            acc + w
        } else {
            40
        };
        i = i + 1;
    }
    assert(ts@.take(ts@.len() as int) =~= ts@);
    acc
}

fn score_of(verdict: Option<SemanticVerdict>, ts: &Vec<GrammarErrorType>) -> (r: u64)
    ensures
        r == score_halves(verdict, ts@),
        r <= 200,
{
    match verdict {
        Some(SemanticVerdict::Correct) => 200,
        Some(SemanticVerdict::Acceptable) => 180 - capped_acceptable_sum(ts),
        _ => {
            if ts.len() == 0 {
                200
            } else {
                2 * (50 - capped_wrong_sum(ts))
            }
        },
    }
}

/// The penalty of a wrong sentence with these errors, in points: 15, 8, 3
/// and 1 per critical, major, minor and spelling error, capped at 40.
pub fn error_penalty(errors: &[GrammarError]) -> (r: u64)
    ensures
        r == error_penalty_spec(error_types(errors@)),
{
    let ts = types_of(errors);
    capped_wrong_sum(&ts)
}

/// The score of a sentence judged by these errors: 100 without errors,
/// else 50 less their penalty.
pub fn error_based_score(errors: &[GrammarError]) -> (r: u64)
    ensures
        r == error_based_score_spec(error_types(errors@)),
{
    if errors.len() == 0 {
        100
    } else {
        50 - error_penalty(errors)
    }
}

/// The score of an exercise in half points (twice its score), from the
/// verdict on its sentence, `None` when none was analysed, and the errors
/// that count for the topic being scored.
pub fn exercise_score_for_sentence(verdict: Option<SemanticVerdict>, relevant_errors: &[GrammarError]) -> (r: u64)
    ensures
        r == score_halves(verdict, error_types(relevant_errors@)),
{
    let ts = types_of(relevant_errors);
    score_of(verdict, &ts)
}

/// Whether an error counts for `topic` in an exercise tagged with
/// `exercise_ids` and practising the units `unit_ids`: every error counts
/// for a unit, which the exercise measures as a whole; otherwise an error
/// naming topics counts for those, and one naming none counts for the
/// exercise's own topics.
pub open spec fn is_relevant(e: GrammarError, exercise_ids: Seq<Seq<char>>, unit_ids: Seq<Seq<char>>, topic: Seq<char>) -> bool {
    if unit_ids.contains(topic) {
        true
    } else if e.topic_ids@.len() == 0 {
        exercise_ids.contains(topic)
    } else {
        e.topic_ids.deep_view().contains(topic)
    }
}

/// The severities of the errors that count for `topic`, in order.
pub open spec fn relevant_types(es: Seq<GrammarError>, exercise_ids: Seq<Seq<char>>, unit_ids: Seq<Seq<char>>, topic: Seq<char>) -> Seq<
    GrammarErrorType,
>
    decreases es.len(),
{
    if es.len() == 0 {
        Seq::empty()
    } else {
        relevant_types(es.drop_last(), exercise_ids, unit_ids, topic) + if is_relevant(
            es.last(),
            exercise_ids,
            unit_ids,
            topic,
        ) {
            seq![es.last().error_type]
        } else {
            Seq::empty()
        }
    }
}

/// The topic ids the errors name, in order.
pub open spec fn error_topic_ids(es: Seq<GrammarError>) -> Seq<Seq<char>>
    decreases es.len(),
{
    if es.len() == 0 {
        Seq::empty()
    } else {
        error_topic_ids(es.drop_last()) + es.last().topic_ids.deep_view()
    }
}

/// The analysed sentence of exercise number `k` (from 0): the last one
/// numbered `k + 1`.
pub open spec fn sentence_for(sentences: Seq<SentenceAnalysis>, k: int) -> Option<SentenceAnalysis> {
    match last_sentence_numbered(sentences, (k + 1) as i32) {
        Some(j) => Some(sentences[j]),
        None => None,
    }
}

/// The topics exercise `k` scores: its own topics, its units and the
/// topics its sentence's errors name, each once.
pub open spec fn scored_topics(exercises: Seq<Exercise>, sentences: Seq<SentenceAnalysis>, k: int) -> Seq<
    Seq<char>,
> {
    dedup_seq(
        exercise_topic_ids(exercises[k]) + exercise_unit_ids(exercises[k]) + match sentence_for(sentences, k) {
            Some(s) => error_topic_ids(s.errors@),
            None => Seq::empty(),
        },
    )
}

/// The score, in half points, that exercise `k` gives `topic`.
pub open spec fn topic_score(exercises: Seq<Exercise>, sentences: Seq<SentenceAnalysis>, topic: Seq<char>, k: int) -> nat {
    match sentence_for(sentences, k) {
        Some(s) => score_halves(
            Some(s.semantic_verdict),
            relevant_types(s.errors@, exercise_topic_ids(exercises[k]), exercise_unit_ids(exercises[k]), topic),
        ),
        None => score_halves(None, Seq::empty()),
    }
}

/// The scores, in half points, that the first `k` exercises give `topic`,
/// in order: one for each exercise that scores it.
pub open spec fn topic_scores_upto(
    exercises: Seq<Exercise>,
    sentences: Seq<SentenceAnalysis>,
    topic: Seq<char>,
    k: int,
) -> Seq<u64>
    decreases k,
{
    if k <= 0 {
        Seq::empty()
    } else {
        topic_scores_upto(exercises, sentences, topic, k - 1) + if scored_topics(
            exercises,
            sentences,
            k - 1,
        ).contains(topic) {
            seq![topic_score(exercises, sentences, topic, k - 1) as u64]
        } else {
            Seq::empty()
        }
    }
}

fn relevant_types_of(errors: &Vec<GrammarError>, exercise_ids: &Vec<Vec<char>>, unit_ids: &Vec<Vec<char>>, topic: &Vec<char>) -> (r: Vec<
    GrammarErrorType,
>)
    ensures
        r@ == relevant_types(errors@, views(exercise_ids@), views(unit_ids@), topic@),
{
    assert(views(exercise_ids@).take(exercise_ids@.len() as int) =~= views(exercise_ids@));
    assert(views(unit_ids@).take(unit_ids@.len() as int) =~= views(unit_ids@));
    let is_unit = match index_among(unit_ids, unit_ids.len(), topic) {
        Some(q) => {
            assert(views(unit_ids@)[q as int] == topic@);
            true
        },
        None => false,
    };
    let in_exercise = match index_among(exercise_ids, exercise_ids.len(), topic) {
        Some(q) => {
            assert(views(exercise_ids@)[q as int] == topic@);
            true
        },
        None => false,
    };
    let mut r: Vec<GrammarErrorType> = Vec::new();
    let mut i: usize = 0;
    while i < errors.len()
        invariant
            i <= errors@.len(),
            in_exercise == views(exercise_ids@).contains(topic@),
            is_unit == views(unit_ids@).contains(topic@),
            r@ == relevant_types(errors@.take(i as int), views(exercise_ids@), views(unit_ids@), topic@),
        decreases errors@.len() - i,
    {
        let e = &errors[i];
        let relevant = if is_unit {
            true
        } else if e.topic_ids.len() == 0 {
            in_exercise
        } else {
            let ids = chars_of_all(&e.topic_ids);
            assert(views(ids@).take(ids@.len() as int) =~= views(ids@));
            match index_among(&ids, ids.len(), topic) {
                Some(q) => {
                    assert(views(ids@)[q as int] == topic@);
                    true
                },
                None => false,
            }
        };
        assert(errors@.take(i + 1).drop_last() =~= errors@.take(i as int));
        assert(errors@.take(i + 1).last() == errors@[i as int]);
        if relevant {
            r.push(e.error_type);
        }
        i = i + 1;
    }
    assert(errors@.take(errors@.len() as int) =~= errors@);
    r
}

fn error_topic_ids_of(errors: &Vec<GrammarError>) -> (r: Vec<Vec<char>>)
    ensures
        views(r@) == error_topic_ids(errors@),
{
    let mut r: Vec<Vec<char>> = Vec::new();
    let mut i: usize = 0;
    while i < errors.len()
        invariant
            i <= errors@.len(),
            views(r@) == error_topic_ids(errors@.take(i as int)),
        decreases errors@.len() - i,
    {
        let ghost before = views(r@);
        let mut more = chars_of_all(&errors[i].topic_ids);
        let ghost mv = views(more@);
        r.append(&mut more);
        assert(views(r@) =~= before + mv);
        assert(errors@.take(i + 1).drop_last() =~= errors@.take(i as int));
        i = i + 1;
    }
    assert(errors@.take(errors@.len() as int) =~= errors@);
    r
}

fn unit_ids_of(e: &Exercise) -> (r: Vec<Vec<char>>)
    ensures
        views(r@) == exercise_unit_ids(*e),
{
    match &e.target_unit_ids {
        Some(v) => chars_of_all(v),
        None => {
            let r: Vec<Vec<char>> = Vec::new();
            assert(views(r@) =~= Seq::<Seq<char>>::empty());
            r
        },
    }
}

fn exercise_ids_of(e: &Exercise) -> (r: Vec<Vec<char>>)
    ensures
        views(r@) == exercise_topic_ids(*e),
{
    let mut ids = chars_of_all(&e.target_topic_ids);
    let mut side = chars_of_all(&e.side_topic_ids);
    let ghost tv = views(ids@);
    let ghost sv = views(side@);
    ids.append(&mut side);
    assert(views(ids@) =~= tv + sv);
    ids
}

/// For each topic of a session, the scores its exercises give it, in half
/// points (twice the score) and in exercise order. An exercise scores its
/// own topics, its units and the topics its sentence's errors name (the
/// sentence being the last one numbered like the exercise, from 1), once
/// each, with the errors that count for the topic or unit. Every scored
/// topic occurs once.
pub fn topic_exercise_scores(exercises: &[Exercise], analysis: &AnalysisResult) -> (r: Vec<(String, Vec<u64>)>)
    ensures
        forall|i: int, j: int| 0 <= i < j < r@.len() ==> r@[i].0@ != r@[j].0@,
        forall|i: int|
            0 <= i < r@.len() ==> (#[trigger] r@[i]).1@ == topic_scores_upto(
                exercises@,
                analysis.sentences@,
                r@[i].0@,
                exercises@.len() as int,
            ) && r@[i].1@.len() > 0,
        forall|id: Seq<char>|
            topic_scores_upto(exercises@, analysis.sentences@, id, exercises@.len() as int).len()
                > 0 ==> exists|i: int| 0 <= i < r@.len() && (#[trigger] r@[i]).0@ == id,
{
    let ghost sents = analysis.sentences@;
    let mut keys: Vec<Vec<char>> = Vec::new();
    let mut lists: Vec<Vec<u64>> = Vec::new();
    let n = exercises.len();
    let mut k: usize = 0;
    while k < n
        invariant
            n == exercises@.len(),
            sents == analysis.sentences@,
            k <= n,
            keys@.len() == lists@.len(),
            forall|a: int, b: int| 0 <= a < b < keys@.len() ==> keys@[a]@ != keys@[b]@,
            forall|q: int|
                0 <= q < keys@.len() ==> lists@[q]@ == topic_scores_upto(
                    exercises@,
                    sents,
                    #[trigger] keys@[q]@,
                    k as int,
                ) && lists@[q]@.len() > 0,
            forall|id: Seq<char>|
                topic_scores_upto(exercises@, sents, id, k as int).len() > 0 ==> #[trigger] views(
                    keys@,
                ).contains(id),
        decreases n - k,
    {
        let ghost kk = k as int;
        let e = &exercises[k];
        let ex_ids = exercise_ids_of(e);
        let unit_ids = unit_ids_of(e);
        let mut all = exercise_ids_of(e);
        let mut units = unit_ids_of(e);
        let ghost tv = views(all@);
        let ghost unv = views(units@);
        all.append(&mut units);
        assert(views(all@) =~= tv + unv);
        let found = find_last_sentence(&analysis.sentences, (k + 1) as i32);
        let ghost av = views(all@);
        let verdict: Option<SemanticVerdict> = match found {
            Some(j) => {
                let mut more = error_topic_ids_of(&analysis.sentences[j].errors);
                let ghost mv = views(more@);
                all.append(&mut more);
                assert(views(all@) =~= av + mv);
                Some(analysis.sentences[j].semantic_verdict)
            },
            None => {
                assert(views(all@) =~= av + Seq::<Seq<char>>::empty());
                None
            },
        };
        let u = dedup_words(&all);
        let ghost uv = views(u@);
        proof {
            lemma_dedup_seq_distinct(views(all@));
            assert(uv == scored_topics(exercises@, sents, kk));
        }
        let mut p: usize = 0;
        while p < u.len()
            invariant
                n == exercises@.len(),
                sents == analysis.sentences@,
                kk == k,
                k < n,
                views(ex_ids@) == exercise_topic_ids(exercises@[kk]),
                views(unit_ids@) == exercise_unit_ids(exercises@[kk]),
                match found {
                    Some(j) => j < sents.len() && sentence_for(sents, kk) == Some(sents[j as int])
                        && verdict == Some(sents[j as int].semantic_verdict),
                    None => sentence_for(sents, kk) is None && verdict is None,
                },
                uv == views(u@),
                uv == scored_topics(exercises@, sents, kk),
                forall|a: int, b: int| 0 <= a < b < uv.len() ==> uv[a] != uv[b],
                p <= u@.len(),
                keys@.len() == lists@.len(),
                forall|a: int, b: int| 0 <= a < b < keys@.len() ==> keys@[a]@ != keys@[b]@,
                forall|q: int|
                    0 <= q < keys@.len() ==> lists@[q]@ == topic_scores_upto(
                        exercises@,
                        sents,
                        #[trigger] keys@[q]@,
                        kk,
                    ) + (if uv.take(p as int).contains(keys@[q]@) {
                        seq![topic_score(exercises@, sents, keys@[q]@, kk) as u64]
                    } else {
                        Seq::empty()
                    }) && lists@[q]@.len() > 0,
                forall|id: Seq<char>|
                    topic_scores_upto(exercises@, sents, id, kk).len() > 0 || uv.take(
                        p as int,
                    ).contains(id) ==> #[trigger] views(keys@).contains(id),
            decreases u@.len() - p,
        {
            let ghost topic = uv[p as int];
            let ghost cur = uv.take(p as int);
            let ghost next = uv.take(p + 1);
            let ghost keys_before = views(keys@);
            assert forall|x: Seq<char>| next.contains(x) <==> (cur.contains(x) || x == topic) by {
                if next.contains(x) {
                    let q = choose|q: int| 0 <= q < next.len() && #[trigger] next[q] == x;
                    if q < p {
                        assert(cur[q] == x);
                    }
                }
                if cur.contains(x) {
                    let q = choose|q: int| 0 <= q < cur.len() && #[trigger] cur[q] == x;
                    assert(next[q] == x);
                }
                if x == topic {
                    assert(next[p as int] == x);
                }
            }
            assert(!cur.contains(topic)) by {
                if cur.contains(topic) {
                    let q = choose|q: int| 0 <= q < cur.len() && #[trigger] cur[q] == topic;
                    assert(uv[q] == uv[p as int]);
                }
            }
            assert(u@[p as int]@ == topic);
            let types = match found {
                Some(j) => relevant_types_of(&analysis.sentences[j].errors, &ex_ids, &unit_ids, &u[p]),
                None => Vec::new(),
            };
            let score = score_of(verdict, &types);
            assert(score == topic_score(exercises@, sents, topic, kk));
            let ghost lists_before = lists@;
            let ghost raw_keys_before = keys@;
            match index_of_key(&keys, &u[p]) {
                Some(q) => {
                    let mut list = lists.remove(q);
                    let ghost lv = list@;
                    list.push(score);
                    lists.insert(q, list);
                    assert forall|q2: int| 0 <= q2 < lists@.len() && q2 != q implies lists@[q2]
                        == lists_before[q2] by {}
                    assert(keys@[q as int]@ == topic);
                    assert(views(keys@)[q as int] == topic);
                    assert forall|q2: int| 0 <= q2 < keys@.len() implies lists@[q2]@
                        == topic_scores_upto(exercises@, sents, #[trigger] keys@[q2]@, kk) + (
                    if next.contains(keys@[q2]@) {
                        seq![topic_score(exercises@, sents, keys@[q2]@, kk) as u64]
                    } else {
                        Seq::empty()
                    }) && lists@[q2]@.len() > 0 by {
                        if q2 == q {
                            assert(lists@[q2]@ == lv.push(score));
                        } else {
                            assert(keys@[q2]@ != topic);
                        }
                    }
                },
                None => {
                    let ghost old_keys = views(keys@);
                    keys.push(u[p].clone());
                    lists.push(vec![score]);
                    assert(views(keys@) =~= old_keys.push(topic));
                    assert(views(keys@)[old_keys.len() as int] == topic);
                    assert(topic_scores_upto(exercises@, sents, topic, kk) =~= Seq::<u64>::empty());
                    assert forall|q2: int| 0 <= q2 < keys@.len() implies lists@[q2]@
                        == topic_scores_upto(exercises@, sents, #[trigger] keys@[q2]@, kk) + (
                    if next.contains(keys@[q2]@) {
                        seq![topic_score(exercises@, sents, keys@[q2]@, kk) as u64]
                    } else {
                        Seq::empty()
                    }) && lists@[q2]@.len() > 0 by {
                        if q2 == raw_keys_before.len() {
                            assert(keys@[q2]@ == topic);
                            assert(lists@[q2]@ =~= seq![score]);
                        } else {
                            assert(keys@[q2] == raw_keys_before[q2]);
                            assert(lists@[q2] == lists_before[q2]);
                            assert(keys@[q2]@ != topic) by {
                                if keys@[q2]@ == topic {
                                    assert(old_keys[q2] == topic);
                                }
                            }
                        }
                    }
                },
            }
            assert forall|x: Seq<char>| #[trigger] keys_before.contains(x) implies views(
                keys@,
            ).contains(x) by {
                let q = choose|q: int| 0 <= q < keys_before.len() && #[trigger] keys_before[q] == x;
                assert(views(keys@)[q] == x);
            }
            assert(views(keys@).contains(topic));
            assert forall|x: Seq<char>|
                topic_scores_upto(exercises@, sents, x, kk).len() > 0 || next.contains(
                    x,
                ) implies #[trigger] views(keys@).contains(x) by {
                if x != topic && next.contains(x) {
                    assert(cur.contains(x));
                }
                if x != topic {
                    assert(keys_before.contains(x));
                }
            }
            p = p + 1;
        }
        proof {
            assert(uv.take(u@.len() as int) =~= uv);
            assert forall|x: Seq<char>| topic_scores_upto(exercises@, sents, x, kk + 1)
                == topic_scores_upto(exercises@, sents, x, kk) + (if uv.contains(x) {
                seq![topic_score(exercises@, sents, x, kk) as u64]
            } else {
                Seq::empty()
            }) by {
                assert(kk + 1 - 1 == kk);
            }
        }
        k = k + 1;
    }
    let mut r: Vec<(String, Vec<u64>)> = Vec::new();
    let ghost all_keys = keys@;
    let ghost all_lists = lists@;
    let total = keys.len();
    let mut done: usize = 0;
    while keys.len() > 0
        invariant
            total == all_keys.len(),
            total == all_lists.len(),
            keys@.len() == lists@.len(),
            done + keys@.len() == total,
            keys@ == all_keys.skip(done as int),
            lists@ == all_lists.skip(done as int),
            r@.len() == done,
            forall|q: int|
                0 <= q < done ==> (#[trigger] r@[q]).0@ == all_keys[q]@ && r@[q].1 == all_lists[q],
        decreases keys@.len(),
    {
        let key = keys.remove(0);
        let list = lists.remove(0);
        assert(list == all_lists[done as int]);
        assert(key == all_keys[done as int]);
        r.push((string_from_chars(key.as_slice()), list));
        assert(keys@ =~= all_keys.skip(done + 1));
        assert(lists@ =~= all_lists.skip(done + 1));
        done = done + 1;
    }
    proof {
        assert forall|id: Seq<char>|
            topic_scores_upto(exercises@, sents, id, n as int).len() > 0 implies exists|i: int|
                0 <= i < r@.len() && (#[trigger] r@[i]).0@ == id by {
            assert(views(all_keys).contains(id));
            let q = choose|q: int| 0 <= q < all_keys.len() && views(all_keys)[q] == id;
            assert(r@[q].0@ == id);
        }
    }
    r
}

/// Every exercise score lies between 10 and 100 points, and an acceptable
/// sentence scores between 70 and 90 points, below a correct one and
/// above any wrong one that has an error.
pub proof fn lemma_score_bands(verdict: Option<SemanticVerdict>, ts: Seq<GrammarErrorType>)
    ensures
        20 <= score_halves(verdict, ts) <= 200,
        140 <= score_halves(Some(SemanticVerdict::Acceptable), ts) <= 180,
        ts.len() > 0 ==> score_halves(Some(SemanticVerdict::NeedsCorrection), ts) <= 100,
        error_penalty_spec(ts) <= 40,
{
}

/// An exercise whose sentence has no error that counts scores full marks
/// (100 points, 200 half points) under any verdict but `Acceptable`, which
/// scores 90 points: a wrong sentence is only marked down for errors that
/// concern the topic.
pub proof fn lemma_no_relevant_error_full_score(verdict: Option<SemanticVerdict>)
    ensures
        verdict != Some(SemanticVerdict::Acceptable) ==> score_halves(verdict, Seq::empty()) == 200,
        score_halves(Some(SemanticVerdict::Acceptable), Seq::empty()) == 180,
{
}

/// One more error never raises an exercise's score, and under a verdict
/// other than `Correct` a wrong or acceptable sentence with errors scores
/// below one without.
pub proof fn lemma_errors_lower_the_score(
    verdict: Option<SemanticVerdict>,
    ts: Seq<GrammarErrorType>,
    t: GrammarErrorType,
)
    ensures
        score_halves(verdict, ts.push(t)) <= score_halves(verdict, ts),
        verdict != Some(SemanticVerdict::Correct) ==> score_halves(verdict, ts.push(t)) < score_halves(
            verdict,
            Seq::empty(),
        ),
{
    assert(ts.push(t).drop_last() =~= ts);
    assert(ts.push(t).last() == t);
}

/// A wrong sentence with a single error scores 50 points less that error's
/// penalty: 35 for a critical error, 42 for a major one, 47 for a minor
/// one and 49 for a spelling mistake (in half points: 70, 84, 94, 98). An
/// acceptable sentence with a single error scores 80, 85, 88 and 89.5
/// points (160, 170, 176, 179 half points).
pub proof fn lemma_single_error_scores(t: GrammarErrorType)
    ensures
        score_halves(Some(SemanticVerdict::NeedsCorrection), seq![t]) == match t {
            GrammarErrorType::Critical => 70nat,
            GrammarErrorType::Major => 84nat,
            GrammarErrorType::Minor => 94nat,
            GrammarErrorType::Spelling => 98nat,
        },
        score_halves(Some(SemanticVerdict::Acceptable), seq![t]) == match t {
            GrammarErrorType::Critical => 160nat,
            GrammarErrorType::Major => 170nat,
            GrammarErrorType::Minor => 176nat,
            GrammarErrorType::Spelling => 179nat,
        },
{
    let one = seq![t];
    assert(one.drop_last() =~= Seq::<GrammarErrorType>::empty());
    assert(one.last() == t);
    assert(wrong_sum(one.drop_last()) == 0);
    assert(wrong_sum(one) == wrong_weight(t));
    assert(acceptable_sum_halves(one.drop_last()) == 0);
    assert(acceptable_sum_halves(one) == acceptable_weight_halves(t));
    assert(error_penalty_spec(seq![t]) == wrong_weight(t));
}

} // verus!
