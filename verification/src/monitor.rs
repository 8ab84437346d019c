//! The delivery monitor: what counts as a receipt, and how one is waited for.

use vstd::prelude::*;

use crate::text::same_text;

verus! {

/// How long a receipt is waited for, in milliseconds.
pub const RECEIPT_TIMEOUT_MILLISECONDS: u64 = 45_000;

/// How long the wait between two looks for a receipt is, in milliseconds.
pub const RECEIPT_POLL_MILLISECONDS: u64 = 500;

/// A message that the monitor saw is a receipt: it came encrypted, so the monitor
/// has decrypted it, and the sender sent it.
pub open spec fn counts_as_receipt(
    encrypted: bool,
    sender: Seq<char>,
    sender_user_id: Seq<char>,
) -> bool {
    encrypted && sender == sender_user_id
}

/// Whether a message that the monitor saw is put down as a receipt.
pub fn is_receipt(encrypted: bool, sender: &str, sender_user_id: &str) -> (receipt: bool)
    ensures
        receipt == counts_as_receipt(encrypted, sender@, sender_user_id@),
{
    encrypted && same_text(sender, sender_user_id)
}

/// A message that the monitor saw.
pub struct SeenMessage {
    pub event_id: Seq<char>,
    pub room_id: Seq<char>,
    pub sender: Seq<char>,
    pub encrypted: bool,
}

/// What a receipt holds beside the event ID that it is kept under.
pub struct Receipt {
    pub room_id: Seq<char>,
    pub sender: Seq<char>,
}

/// The receipts after messages were seen one by one: each that is one is put down,
/// unless there is a receipt of the event.
pub open spec fn receipts_after(
    start: Map<Seq<char>, Receipt>,
    seen: Seq<SeenMessage>,
    sender_user_id: Seq<char>,
) -> Map<Seq<char>, Receipt>
    decreases seen.len(),
{
    if seen.len() == 0 {
        start
    } else {
        let earlier = receipts_after(start, seen.drop_last(), sender_user_id);
        let message = seen.last();
        if counts_as_receipt(message.encrypted, message.sender, sender_user_id)
            && !earlier.dom().contains(message.event_id) {
            earlier.insert(
                message.event_id,
                Receipt { room_id: message.room_id, sender: message.sender },
            )
        } else {
            earlier
        }
    }
}

/// The message at `n` is a receipt of the event.
pub open spec fn is_receipt_at(
    seen: Seq<SeenMessage>,
    sender_user_id: Seq<char>,
    event_id: Seq<char>,
    n: int,
) -> bool {
    &&& 0 <= n < seen.len()
    &&& seen[n].event_id == event_id
    &&& counts_as_receipt(seen[n].encrypted, seen[n].sender, sender_user_id)
}

/// The monitor has a receipt of exactly those events that it had one of or that it
/// has decrypted as messages of the sender. It has one receipt of each, and never
/// changes it; a new one names the sender, and the room of the first message that
/// was one.
pub proof fn law_receipts_are_of_decrypted_messages(
    start: Map<Seq<char>, Receipt>,
    seen: Seq<SeenMessage>,
    sender_user_id: Seq<char>,
    event_id: Seq<char>,
)
    ensures
        receipts_after(start, seen, sender_user_id).dom().contains(event_id)
            <==> start.dom().contains(event_id) || exists|n: int|
            is_receipt_at(seen, sender_user_id, event_id, n),
        start.dom().contains(event_id) ==> receipts_after(start, seen, sender_user_id)[event_id]
            == start[event_id],
        !start.dom().contains(event_id) ==> forall|n: int|
            is_receipt_at(seen, sender_user_id, event_id, n) && (forall|m: int|
                0 <= m < n ==> !is_receipt_at(seen, sender_user_id, event_id, m))
                ==> receipts_after(start, seen, sender_user_id)[event_id] == (Receipt {
                room_id: (#[trigger] seen[n]).room_id,
                sender: sender_user_id,
            }),
    decreases seen.len(),
{
    if seen.len() > 0 {
        let earlier = seen.drop_last();
        let last = seen.len() - 1;
        law_receipts_are_of_decrypted_messages(start, earlier, sender_user_id, event_id);
        assert forall|n: int| 0 <= n < last implies is_receipt_at(
            seen,
            sender_user_id,
            event_id,
            n,
        ) == is_receipt_at(earlier, sender_user_id, event_id, n) by {
            assert(seen[n] == earlier[n]);
        }
        if is_receipt_at(seen, sender_user_id, event_id, last) {
            assert(seen.last() == seen[last]);
        }
        assert forall|n: int|
            !start.dom().contains(event_id) && is_receipt_at(seen, sender_user_id, event_id, n)
                && (forall|m: int|
                0 <= m < n ==> !is_receipt_at(
                    seen,
                    sender_user_id,
                    event_id,
                    m,
                )) implies receipts_after(start, seen, sender_user_id)[event_id] == (Receipt {
            room_id: (#[trigger] seen[n]).room_id,
            sender: sender_user_id,
        }) by {
            if n < last {
                assert(is_receipt_at(earlier, sender_user_id, event_id, n));
                assert forall|m: int| 0 <= m < n implies !is_receipt_at(
                    earlier,
                    sender_user_id,
                    event_id,
                    m,
                ) by {
                    assert(!is_receipt_at(seen, sender_user_id, event_id, m));
                }
                assert(earlier[n] == seen[n]);
            } else {
                assert forall|m: int| !is_receipt_at(earlier, sender_user_id, event_id, m) by {
                    if is_receipt_at(earlier, sender_user_id, event_id, m) {
                        assert(is_receipt_at(seen, sender_user_id, event_id, m));
                    }
                }
            }
        }
    }
}

/// How the wait for a receipt goes on.
#[derive(Clone, Copy, Debug, PartialEq, Eq, Structural)]
pub enum ReceiptWait {
    /// The monitor has decrypted the message.
    Received,
    /// The receipts could not be read.
    Failed,
    /// Look again after some milliseconds.
    LookAgain { after_milliseconds: u64 },
    /// There is no time for another look: the wait is over after some milliseconds.
    TimedOut { after_milliseconds: u64 },
}

/// How the wait goes on after a look that ended when some milliseconds had gone by
/// since the wait began. What comes after the time is up counts for nothing.
pub open spec fn next_wait(look: Result<bool, ()>, elapsed: u64) -> ReceiptWait {
    if elapsed > RECEIPT_TIMEOUT_MILLISECONDS {
        ReceiptWait::TimedOut { after_milliseconds: 0 }
    } else {
        match look {
            Ok(true) => ReceiptWait::Received,
            Ok(false) => if elapsed + RECEIPT_POLL_MILLISECONDS < RECEIPT_TIMEOUT_MILLISECONDS {
                ReceiptWait::LookAgain { after_milliseconds: RECEIPT_POLL_MILLISECONDS }
            } else {
                ReceiptWait::TimedOut {
                    after_milliseconds: (RECEIPT_TIMEOUT_MILLISECONDS - elapsed) as u64,
                }
            },
            Err(_) => ReceiptWait::Failed,
        }
    }
}

/// Goes on after a look for the receipt, which found it, did not find it, or
/// failed.
pub fn wait_step(look: Result<bool, ()>, elapsed: u64) -> (wait: ReceiptWait)
    ensures
        wait == next_wait(look, elapsed),
{
    if elapsed > RECEIPT_TIMEOUT_MILLISECONDS {
        return ReceiptWait::TimedOut { after_milliseconds: 0 };
    }
    match look {
        Ok(true) => ReceiptWait::Received,
        Ok(false) => {
            let left: u64 = RECEIPT_TIMEOUT_MILLISECONDS - elapsed;
            if left > RECEIPT_POLL_MILLISECONDS {
                ReceiptWait::LookAgain { after_milliseconds: RECEIPT_POLL_MILLISECONDS }
            } else {
                ReceiptWait::TimedOut { after_milliseconds: left }
            }
        },
        Err(_) => ReceiptWait::Failed,
    }
}

/// Looks in the course of a wait, each with the time at which it ended: after each
/// but the last the wait went on, and some time went by.
pub open spec fn is_wait(looks: Seq<(Result<bool, ()>, u64)>) -> bool {
    &&& looks.len() > 0
    &&& forall|i: int|
        #![trigger looks[i]]
        0 <= i < looks.len() - 1 ==> {
            &&& next_wait(looks[i].0, looks[i].1) is LookAgain
            &&& looks[i].1 + RECEIPT_POLL_MILLISECONDS <= looks[i + 1].1
        }
}

/// How a wait stands after looks.
pub open spec fn wait_after(looks: Seq<(Result<bool, ()>, u64)>) -> ReceiptWait {
    next_wait(looks.last().0, looks.last().1)
}

/// A message counts as received exactly where a look finds its receipt in time,
/// after looks that did not.
pub proof fn law_receipt_is_found_in_time(looks: Seq<(Result<bool, ()>, u64)>)
    requires
        is_wait(looks),
    ensures
        wait_after(looks) == ReceiptWait::Received <==> looks.last().0 == Ok::<bool, ()>(true)
            && looks.last().1 <= RECEIPT_TIMEOUT_MILLISECONDS,
        forall|i: int|
            0 <= i < looks.len() - 1 ==> (#[trigger] looks[i]).0 == Ok::<bool, ()>(false)
                && looks[i].1 < RECEIPT_TIMEOUT_MILLISECONDS,
{
    assert forall|i: int| 0 <= i < looks.len() - 1 implies (#[trigger] looks[i]).0 == Ok::<
        bool,
        (),
    >(false) && looks[i].1 < RECEIPT_TIMEOUT_MILLISECONDS by {
        assert(next_wait(looks[i].0, looks[i].1) is LookAgain);
    }
}

proof fn lemma_time_goes_by(looks: Seq<(Result<bool, ()>, u64)>, i: int)
    requires
        is_wait(looks),
        0 <= i < looks.len(),
    ensures
        RECEIPT_POLL_MILLISECONDS * i <= looks[i].1,
    decreases i,
{
    if i > 0 {
        lemma_time_goes_by(looks, i - 1);
        assert(looks[i - 1].1 + RECEIPT_POLL_MILLISECONDS <= looks[i - 1 + 1].1);
    }
}

/// A wait comes to an end: it takes at most ninety looks, and goes on after none of
/// them once the time is up. It does not time out before the time is up.
pub proof fn law_wait_ends(looks: Seq<(Result<bool, ()>, u64)>)
    requires
        is_wait(looks),
    ensures
        looks.len() <= 90,
        looks.last().1 >= RECEIPT_TIMEOUT_MILLISECONDS ==> !(wait_after(looks) is LookAgain),
        looks.len() == 90 ==> !(wait_after(looks) is LookAgain),
        wait_after(looks) matches ReceiptWait::TimedOut { after_milliseconds }
            ==> looks.last().1 + after_milliseconds >= RECEIPT_TIMEOUT_MILLISECONDS,
{
    let last = looks.len() - 1;
    lemma_time_goes_by(looks, last);
    if last > 0 {
        lemma_time_goes_by(looks, last - 1);
        assert(next_wait(looks[last - 1].0, looks[last - 1].1) is LookAgain);
    }
}

} // verus!
