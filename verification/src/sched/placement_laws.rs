//! What holds of the word in which processors publish their load.
use crate::sched::placement::{
    can_swap, cpu_in, packed, replaces, too_early, undisturbed, weight_in, word_for, Publication,
    PublishEnd, MIN_COOLDOWN,
};
use crate::sched::runqueue::{total_weight, QueueModel, Work, MAX_WORK};
use crate::sched::state::{may_publish_as, publication};
use std::sync::atomic::AtomicU64;
use vstd::prelude::*;

verus! {

/// A processor's load, once it is in the shared word, names that processor
/// and its load, as far as they fit.
pub proof fn law_word_reads_back(cpu_id: u64, weight: u64)
    ensures
        0 <= packed(cpu_id, weight) <= u64::MAX,
        cpu_in(packed(cpu_id, weight) as u64) == cpu_id as int % 0x1_0000,
        weight_in(packed(cpu_id, weight) as u64) == weight as int % 0x1_0000_0000_0000,
{
    let low = cpu_id as int % 0x1_0000;
    let high = weight as int % 0x1_0000_0000_0000;
    let word = packed(cpu_id, weight);
    assert(0 <= low < 0x1_0000);
    assert(0 <= high < 0x1_0000_0000_0000);
    assert(word == high * 0x1_0000 + low);
    assert(0 <= word <= u64::MAX);
    vstd::arithmetic::div_mod::lemma_fundamental_div_mod_converse(word, 0x1_0000, high, low);
}

/// A processor replaces what another has published only by a smaller load.
pub proof fn law_only_less_replaces_another(cpu_id: u64, weight: u64, info: u64)
    requires
        replaces(cpu_id, weight, info),
        cpu_in(info) != cpu_id,
    ensures
        weight < weight_in(info),
        weight_in(packed(cpu_id, weight) as u64) <= weight < weight_in(info),
{
    law_word_reads_back(cpu_id, weight);
}

/// Once a processor's load is in the word, publishing the same load changes
/// nothing, so attempts end.
pub proof fn law_publishing_settles(cpu_id: u64, weight: u64)
    ensures
        !replaces(cpu_id, weight, packed(cpu_id, weight) as u64),
{
    law_word_reads_back(cpu_id, weight);
}

/// A processor that has just published waits before it does so again.
pub proof fn law_cooldown(last: u64, now: u64)
    requires
        last <= now,
    ensures
        too_early(Some(last), Some(now)) <==> now - last < MIN_COOLDOWN,
        !too_early(None, Some(now)),
        !too_early(Some(last), None),
{
}

/// Where nobody else writes the word, publishing sees the word as it was and
/// replaces it exactly where it should be replaced, at the first attempt.
pub proof fn law_undisturbed_load_is_published(
    load: Publication,
    word: &AtomicU64,
    was: u64,
    end: PublishEnd,
)
    requires
        load.tries_left > 0,
        undisturbed(word, was),
        load.may_end_as(end),
        load.ended_on(word, end),
    ensures
        end.seen == was,
        end.replaced <==> replaces(load.cpu_id, load.weight, was),
        end.exchanges == (if end.replaced {
            1int
        } else {
            0
        }),
        end.replaced ==> exists|got: u64| #[trigger]
            can_swap(word, was, word_for(load.cpu_id, load.weight), Ok(got)),
{
    let words = choose|words: Seq<u64>| #[trigger]
        load.chain(word, words) && words.len() == end.refusals() + 1 && words.last() == end.seen;
    assert(words[0] == was);
    if words.len() > 1 {
        assert(load.refused(word, words[0], words[1]));
        assert(can_swap(
            word,
            words[0],
            word_for(load.cpu_id, load.weight),
            Err::<u64, u64>(words[1]),
        ));
    }
}

/// The weight of tasks together has a bound.
proof fn lemma_total_weight_bound(works: Seq<Work>, n: nat)
    ensures
        0 <= total_weight(works, n) <= n * 1151,
    decreases n,
{
    if n > 0 {
        lemma_total_weight_bound(works, (n - 1) as nat);
    }
}

/// What is left in the shared word where nobody else writes it. A processor
/// that waits between two publications leaves the word as it was. Another
/// processor's record gives way only to a smaller load; the processor's own
/// record is always brought up to date, upwards too.
pub proof fn law_undisturbed_word(
    queue: QueueModel,
    last_update: Option<u64>,
    now: Option<u64>,
    cpu_id: u64,
    word: &AtomicU64,
    was: u64,
    end: Option<PublishEnd>,
)
    requires
        queue.wf(),
        cpu_id <= 0xffff,
        undisturbed(word, was),
        may_publish_as(queue, last_update, now, cpu_id, word, end),
    ensures
        ({
            let weight = total_weight(queue.works, queue.works.len());
            let left = match end {
                Some(end) => end.left(publication(queue, cpu_id)),
                None => was,
            };
            &&& end is None <==> too_early(last_update, now)
            &&& end matches Some(end) ==> {
                &&& end.seen == was
                &&& end.replaced <==> replaces(cpu_id, weight as u64, was)
            }
            &&& left == (if !too_early(last_update, now) && (cpu_id == cpu_in(was) || weight
                < weight_in(was)) {
                cpu_id + weight * 0x1_0000
            } else {
                was as int
            })
        }),
{
    let weight = total_weight(queue.works, queue.works.len());
    lemma_total_weight_bound(queue.works, queue.works.len());
    assert(queue.works.len() <= MAX_WORK);
    assert(packed(cpu_id, weight as u64) == cpu_id + weight * 0x1_0000);
    if let Some(end) = end {
        law_undisturbed_load_is_published(publication(queue, cpu_id), word, was, end);
    }
}

} // verus!
