use vstd::prelude::*;

use crate::db::models::Message;

verus! {

/// The sum of the scores of `messages`, as a mathematical integer.
pub open spec fn score_sum(messages: Seq<Message>) -> int
    decreases messages.len(),
{
    if messages.len() == 0 {
        0
    } else {
        score_sum(messages.drop_last()) + messages.last().score
    }
}

/// Whether an `i32` can be in range for `v`.
pub open spec fn fits_i32(v: int) -> bool {
    i32::MIN <= v <= i32::MAX
}

/// Whether adding the scores up one by one in an `i32`, starting from 0,
/// stays in range at every step.
pub open spec fn running_sum_fits(messages: Seq<Message>) -> bool
    decreases messages.len(),
{
    if messages.len() == 0 {
        true
    } else {
        running_sum_fits(messages.drop_last()) && fits_i32(score_sum(messages))
    }
}

/// Adds up the scores of `messages` in an `i32`, in order, as the user and
/// channel pages do. Returns `None` exactly when some partial sum leaves the
/// range of `i32` (where plain `i32` addition would overflow).
pub fn score_total(messages: &Vec<Message>) -> (r: Option<i32>)
    ensures
        r is Some <==> running_sum_fits(messages@),
        r matches Some(v) ==> v == score_sum(messages@),
{
    let mut total: i32 = 0;
    let mut i: usize = 0;
    while i < messages.len()
        invariant
            i <= messages.len(),
            running_sum_fits(messages@.take(i as int)),
            total == score_sum(messages@.take(i as int)),
        decreases messages.len() - i,
    {
        let ghost prefix = messages@.take(i as int);
        let ghost next = messages@.take(i as int + 1);
        assert(next.drop_last() =~= prefix);
        match total.checked_add(messages[i].score) {
            Some(t) => {
                total = t;
            },
            None => {
                proof {
                    lemma_fits_prefix_closed(messages@, i as int + 1);
                }
                return None;
            },
        }
        i = i + 1;
    }
    assert(messages@.take(messages.len() as int) =~= messages@);
    Some(total)
}

/// A sequence whose running sums stay in range has prefixes whose running
/// sums stay in range.
pub proof fn lemma_fits_prefix_closed(messages: Seq<Message>, k: int)
    requires
        0 <= k <= messages.len(),
        !running_sum_fits(messages.take(k)),
    ensures
        !running_sum_fits(messages),
    decreases messages.len() - k,
{
    if k < messages.len() {
        assert(messages.take(k + 1).drop_last() =~= messages.take(k));
        lemma_fits_prefix_closed(messages, k + 1);
    } else {
        assert(messages.take(k) =~= messages);
    }
}

/// The score of no messages is 0, and appending a message adds its score:
/// the total is the plain sum of the scores of all the messages.
pub proof fn law_score_sum_adds_every_message(messages: Seq<Message>, m: Message)
    ensures
        score_sum(Seq::<Message>::empty()) == 0,
        score_sum(messages.push(m)) == score_sum(messages) + m.score,
{
    assert(messages.push(m).drop_last() =~= messages);
}

/// Adding up no messages never overflows, and adding up one more message
/// stays in range exactly when the sum so far did and the new sum lies
/// between `i32::MIN` and `i32::MAX`.
pub proof fn law_running_sum_fits_step(messages: Seq<Message>, m: Message)
    ensures
        running_sum_fits(Seq::<Message>::empty()),
        running_sum_fits(messages.push(m)) <==> (running_sum_fits(messages) && i32::MIN
            <= score_sum(messages) + m.score <= i32::MAX),
{
    assert(messages.push(m).drop_last() =~= messages);
    law_score_sum_adds_every_message(messages, m);
}

} // verus!
