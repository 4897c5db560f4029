use vstd::prelude::*;

use crate::history::{BoundedHistory, pushed_bounded};
use crate::parse::{RateValue, parse_number, rate_of};
use crate::text::{chars_of, is_equal_chars, string_of};
use crate::utils::{abs, diff_display, down_mark, flat_mark, rupiah, up_mark};

verus! {

/// How many update keys are remembered before the memory is cleared.
pub const MAX_SEEN_UPDATES: usize = 5000;

/// The keys (creation times) of the rate updates already handled, so that an update that
/// arrives twice is handled once. The keys are kept in a vector searched by text equality,
/// which is what the contracts below are stated in.
pub struct SeenUpdates {
    keys: Vec<String>,
}

/// The keys remembered after `key` is added to `keys`: when that makes more than 5000, the
/// memory is cleared and holds `key` alone.
pub open spec fn remembered_keys(keys: Seq<Seq<char>>, key: Seq<char>) -> Seq<Seq<char>> {
    if keys.len() + 1 > 5000 {
        seq![key]
    } else {
        keys.push(key)
    }
}

impl SeenUpdates {
    /// The remembered keys, in the order they arrived.
    pub closed spec fn keys(&self) -> Seq<Seq<char>> {
        self.keys@.map_values(|k: String| k@)
    }

    /// No key is remembered twice, and at most 5000 are remembered.
    pub open spec fn wf(&self) -> bool {
        &&& self.keys().no_duplicates()
        &&& self.keys().len() <= 5000
    }

    /// Remembers nothing.
    pub fn new() -> (res: Self)
        ensures
            res.wf(),
            res.keys() == Seq::<Seq<char>>::empty(),
    {
        let res = SeenUpdates { keys: Vec::new() };
        proof {
            assert(res.keys() =~= Seq::<Seq<char>>::empty());
        }
        res
    }

    /// The number of remembered keys.
    pub fn len(&self) -> (res: usize)
        ensures
            res == self.keys().len(),
    {
        self.keys.len()
    }

    /// Whether `key` is remembered.
    pub fn contains(&self, key: &String) -> (res: bool)
        ensures
            res == self.keys().contains(key@),
    {
        let mut i: usize = 0;
        while i < self.keys.len()
            invariant
                i <= self.keys@.len(),
                forall|j: int| 0 <= j < i ==> self.keys@[j]@ != key@,
            decreases self.keys@.len() - i,
        {
            if self.keys[i] == *key {
                proof {
                    assert(self.keys()[i as int] == key@);
                }
                return true;
            }
            i = i + 1;
        }
        proof {
            if self.keys().contains(key@) {
                let j = choose|j: int| 0 <= j < self.keys().len() && self.keys()[j] == key@;
                assert(self.keys@[j]@ == key@);
            }
        }
        false
    }

    /// Remembers `key`; true when it was not remembered before. When the memory would hold
    /// more than 5000 keys it is cleared and keeps `key` alone.
    pub fn remember(&mut self, key: String) -> (fresh: bool)
        requires
            old(self).wf(),
        ensures
            final(self).wf(),
            fresh == !old(self).keys().contains(key@),
            fresh ==> final(self).keys() == remembered_keys(old(self).keys(), key@),
            !fresh ==> final(self).keys() == old(self).keys(),
    {
        if self.contains(&key) {
            return false;
        }
        let ghost old_keys = self.keys();
        self.keys.push(key);
        proof {
            assert(self.keys() =~= old_keys.push(key@));
            assert(self.keys().no_duplicates()) by {
                assert forall|i: int, j: int|
                    0 <= i < self.keys().len() && 0 <= j < self.keys().len() && i != j implies
                    self.keys()[i] != self.keys()[j] by {
                    if i == old_keys.len() as int {
                        assert(old_keys.contains(self.keys()[j]));
                    } else if j == old_keys.len() as int {
                        assert(old_keys.contains(self.keys()[i]));
                    }
                }
            }
        }
        if self.keys.len() > MAX_SEEN_UPDATES {
            let keep = self.keys.pop().unwrap();
            self.keys.clear();
            self.keys.push(keep);
            proof {
                assert(self.keys() =~= seq![key@]);
            }
        }
        true
    }
}

/// A rate update as the feed delivers it.
pub struct GoldRateData {
    pub buying_rate: Option<RateValue>,
    pub selling_rate: Option<RateValue>,
    pub created_at: Option<String>,
}

/// One entry of the gold rate history.
pub struct GoldEntry {
    pub buying_rate: i64,
    pub selling_rate: i64,
    /// The status mark: up, down or flat.
    pub status: String,
    /// The buying rate less the one before it (0 for the first).
    pub diff: i64,
    pub created_at: String,
}

/// The state of the gold rate feed: the updates seen, the last buying rate, and the history.
pub struct TreasuryState {
    pub seen: SeenUpdates,
    pub last_buy: Option<i64>,
    pub history: BoundedHistory<GoldEntry>,
}

impl TreasuryState {
    /// The parts of the state are each well formed.
    pub open spec fn wf(&self) -> bool {
        self.seen.wf() && self.history.wf()
    }

    /// A fresh state with room for `capacity` history entries.
    pub fn new(capacity: usize) -> (res: Self)
        ensures
            res.wf(),
            res.seen.keys() == Seq::<Seq<char>>::empty(),
            res.last_buy is None,
            res.history@.len() == 0,
            res.history.spec_capacity() == capacity,
    {
        TreasuryState { seen: SeenUpdates::new(), last_buy: None, history: BoundedHistory::new(capacity) }
    }
}

/// The rate that an optional feed value stands for.
pub open spec fn opt_rate(value: Option<RateValue>) -> Option<i64> {
    match value {
        Some(v) => rate_of(v),
        None => None,
    }
}

/// The view of an optional text.
pub open spec fn opt_view(s: Option<String>) -> Option<Seq<char>> {
    match s {
        Some(t) => Some(t@),
        None => None,
    }
}

/// An update is taken when its buying and selling rates read as integers and its creation
/// time is a non-empty text not among the `seen` keys.
pub open spec fn update_accepted(
    seen: Seq<Seq<char>>,
    buy: Option<i64>,
    sell: Option<i64>,
    created_at: Option<Seq<char>>,
) -> bool {
    &&& buy is Some
    &&& sell is Some
    &&& created_at matches Some(c) && c.len() > 0 && !seen.contains(c)
}

/// The status mark and the difference for a buying rate `buy` after the buying rate `last`
/// (none for the first rate).
pub open spec fn movement(last: Option<i64>, buy: i64) -> (Seq<char>, int) {
    match last {
        None => (flat_mark(), 0),
        Some(l) => if buy > l {
            (up_mark(), buy - l)
        } else if buy < l {
            (down_mark(), buy - l)
        } else {
            (flat_mark(), 0)
        },
    }
}

/// The status mark and the difference of a buying rate against the previous one.
pub fn price_movement(last: Option<i64>, buy: i64) -> (res: (String, i64))
    requires
        last matches Some(l) ==> i64::MIN <= buy - l <= i64::MAX,
    ensures
        res.0@ == movement(last, buy).0,
        res.1 == movement(last, buy).1,
{
    let mut mark: Vec<char> = Vec::new();
    let diff: i64 = match last {
        None => {
            mark.push('\u{2796}');
            0
        },
        Some(l) => {
            if buy > l {
                mark.push('\u{1F680}');
                buy - l
            } else if buy < l {
                mark.push('\u{1F53B}');
                buy - l
            } else {
                mark.push('\u{2796}');
                0
            }
        },
    };
    proof {
        assert(mark@ =~= movement(last, buy).0);
    }
    (string_of(&mark), diff)
}

/// The update would be taken and would be compared with a previous buying rate: the
/// difference must then fit in an `i64`.
pub open spec fn movement_fits(state: &TreasuryState, data: &GoldRateData) -> bool {
    update_accepted(
        state.seen.keys(),
        opt_rate(data.buying_rate),
        opt_rate(data.selling_rate),
        opt_view(data.created_at),
    ) ==> (state.last_buy matches Some(l) ==> i64::MIN <= opt_rate(data.buying_rate)->0 - l
        <= i64::MAX)
}

/// Handles one rate update of the feed: an update whose rates do not read as integers,
/// whose creation time is missing or empty, or that was seen before is ignored; any other
/// update is remembered, becomes the last buying rate, and is recorded in the history with
/// its movement against the previous buying rate. True when the history changed.
pub fn process_treasury_data(state: &mut TreasuryState, data: GoldRateData) -> (changed: bool)
    requires
        old(state).wf(),
        movement_fits(old(state), &data),
    ensures
        final(state).wf(),
        final(state).history.spec_capacity() == old(state).history.spec_capacity(),
        changed == update_accepted(
            old(state).seen.keys(),
            opt_rate(data.buying_rate),
            opt_rate(data.selling_rate),
            opt_view(data.created_at),
        ),
        !changed ==> {
            &&& final(state).seen.keys() == old(state).seen.keys()
            &&& final(state).last_buy == old(state).last_buy
            &&& final(state).history@ == old(state).history@
        },
        changed ==> {
            let buy = opt_rate(data.buying_rate)->0;
            let sell = opt_rate(data.selling_rate)->0;
            let created = opt_view(data.created_at)->0;
            let entry = final(state).history@.last();
            &&& final(state).seen.keys() == remembered_keys(old(state).seen.keys(), created)
            &&& final(state).last_buy == Some(buy)
            &&& final(state).history@ == pushed_bounded(
                old(state).history@,
                old(state).history.spec_capacity(),
                entry,
            )
            &&& entry.buying_rate == buy
            &&& entry.selling_rate == sell
            &&& entry.status@ == movement(old(state).last_buy, buy).0
            &&& entry.diff == movement(old(state).last_buy, buy).1
            &&& entry.created_at@ == created
        },
{
    let buy = match &data.buying_rate {
        Some(v) => match parse_number(v) {
            Some(b) => b,
            None => {
                return false;
            },
        },
        None => {
            return false;
        },
    };
    let sell = match &data.selling_rate {
        Some(v) => match parse_number(v) {
            Some(s) => s,
            None => {
                return false;
            },
        },
        None => {
            return false;
        },
    };
    let created_at = match data.created_at {
        Some(s) => {
            if s.as_str().is_empty() {
                return false;
            }
            s
        },
        None => {
            return false;
        },
    };
    if !state.seen.remember(created_at.clone()) {
        return false;
    }
    let (status, diff) = price_movement(state.last_buy, buy);
    let entry = GoldEntry { buying_rate: buy, selling_rate: sell, status, diff, created_at };
    state.history.push(entry);
    state.last_buy = Some(buy);
    true
}

/// An update that was taken is ignored when it arrives again: its creation time is then
/// among the remembered keys.
pub proof fn law_repeated_update_ignored(
    seen: Seq<Seq<char>>,
    buy: Option<i64>,
    sell: Option<i64>,
    created_at: Seq<char>,
)
    requires
        update_accepted(seen, buy, sell, Some(created_at)),
    ensures
        !update_accepted(remembered_keys(seen, created_at), buy, sell, Some(created_at)),
{
    let after = remembered_keys(seen, created_at);
    if seen.len() + 1 > 5000 {
        assert(after[0] == created_at);
    } else {
        assert(after[seen.len() as int] == created_at);
    }
}

/// An update whose rates read as integers and whose non-empty creation time has not been seen
/// is taken however many keys are remembered, and only such an update is taken. When 5000
/// keys are already remembered, the memory afterwards holds the new key alone; otherwise the
/// new key is added after the others.
pub proof fn law_fresh_update_taken(
    seen: Seq<Seq<char>>,
    buy: Option<i64>,
    sell: Option<i64>,
    created_at: Option<Seq<char>>,
    key: Seq<char>,
)
    ensures
        update_accepted(seen, buy, sell, created_at) <==> (buy is Some && sell is Some
            && created_at is Some && created_at->0.len() > 0 && !seen.contains(created_at->0)),
        seen.len() >= 5000 ==> remembered_keys(seen, key) == seq![key],
        seen.len() < 5000 ==> remembered_keys(seen, key) == seen.push(key),
        remembered_keys(seen, key).contains(key),
{
    let after = remembered_keys(seen, key);
    if seen.len() >= 5000 {
        assert(after[0] == key);
    } else {
        assert(after[seen.len() as int] == key);
    }
}

/// The status mark agrees with the sign of the difference: up exactly when the rate rose,
/// down exactly when it fell, flat otherwise; and the difference is the change of rate.
pub proof fn law_movement_sign(last: Option<i64>, buy: i64)
    ensures
        (movement(last, buy).0 == up_mark()) <==> movement(last, buy).1 > 0,
        (movement(last, buy).0 == down_mark()) <==> movement(last, buy).1 < 0,
        (movement(last, buy).0 == flat_mark()) <==> movement(last, buy).1 == 0,
        last matches Some(l) ==> movement(last, buy).1 == buy - l,
{
    assert(up_mark()[0] != down_mark()[0]);
    assert(up_mark()[0] != flat_mark()[0]);
    assert(down_mark()[0] != flat_mark()[0]);
}

/// The difference of a rate movement is shown with its mark and its sign: the up mark and
/// `+` before a rise, the down mark before a fall written with its minus sign, and the flat
/// mark with `tetap` when nothing changed.
pub proof fn law_movement_display(last: Option<i64>, buy: i64)
    ensures
        ({
            let (mark, diff) = movement(last, buy);
            diff_display(diff, mark) == if diff > 0 {
                up_mark() + seq!['+'] + rupiah(diff)
            } else if diff < 0 {
                down_mark() + rupiah(diff)
            } else {
                flat_mark() + seq!['t', 'e', 't', 'a', 'p']
            }
        }),
{
    law_movement_sign(last, buy);
    let (mark, diff) = movement(last, buy);
    if diff < 0 {
        assert(rupiah(abs(diff) as int) == rupiah(-diff));
        assert(down_mark() + seq!['-'] + rupiah(-diff) =~= down_mark() + rupiah(diff));
    }
}

/// What happens when the feed closes or fails: how many connection attempts in a row have
/// failed.
pub struct Reconnect {
    pub consecutive_errors: u32,
}

/// The longest wait before reconnecting, in seconds.
pub const MAX_RECONNECT_WAIT_SECS: u64 = 15;

impl Reconnect {
    /// No failure yet.
    pub fn new() -> (res: Self)
        ensures
            res.consecutive_errors == 0,
    {
        Reconnect { consecutive_errors: 0 }
    }

    /// A connection succeeded: the count of failures starts again.
    pub fn connected(&mut self)
        ensures
            final(self).consecutive_errors == 0,
    {
        self.consecutive_errors = 0;
    }

    /// A connection attempt failed.
    pub fn connect_failed(&mut self)
        requires
            old(self).consecutive_errors < u32::MAX,
        ensures
            final(self).consecutive_errors == old(self).consecutive_errors + 1,
    {
        self.consecutive_errors = self.consecutive_errors + 1;
    }

    /// Seconds to wait before the next attempt: one per failure in a row, at most 15.
    pub fn wait_secs(&self) -> (res: u64)
        ensures
            res == if self.consecutive_errors < 15 {
                self.consecutive_errors as u64
            } else {
                15
            },
    {
        let errors = self.consecutive_errors as u64;
        if errors < MAX_RECONNECT_WAIT_SECS {
            errors
        } else {
            MAX_RECONNECT_WAIT_SECS
        }
    }
}

/// The kinds of message the feed sends.
#[derive(PartialEq, Eq, Structural, Clone, Copy, Debug)]
pub enum PusherEvent {
    /// A rate update on the subscribed channel.
    RateUpdate,
    ConnectionEstablished,
    SubscriptionSucceeded,
    Error,
    /// Anything else, ignored.
    Other,
}

/// The kind of a feed message with event name `event` (none counts as the empty name), when
/// rate updates carry the event name `rate_event`; the rate event is recognised first.
pub open spec fn pusher_event_spec(event: Seq<char>, rate_event: Seq<char>) -> PusherEvent {
    if event == rate_event {
        PusherEvent::RateUpdate
    } else if event == "pusher:connection_established"@ {
        PusherEvent::ConnectionEstablished
    } else if event == "pusher_internal:subscription_succeeded"@ {
        PusherEvent::SubscriptionSucceeded
    } else if event == "pusher:error"@ {
        PusherEvent::Error
    } else {
        PusherEvent::Other
    }
}

/// Classifies a feed message by its event name.
pub fn classify_pusher_event(event: Option<&str>, rate_event: &str) -> (res: PusherEvent)
    ensures
        res == pusher_event_spec(
            match event {
                Some(e) => e@,
                None => Seq::empty(),
            },
            rate_event@,
        ),
{
    let name: Vec<char> = match event {
        Some(e) => chars_of(e),
        None => Vec::new(),
    };
    if is_equal_chars(&name, &chars_of(rate_event)) {
        PusherEvent::RateUpdate
    } else if is_equal_chars(&name, &chars_of("pusher:connection_established")) {
        PusherEvent::ConnectionEstablished
    } else if is_equal_chars(&name, &chars_of("pusher_internal:subscription_succeeded")) {
        PusherEvent::SubscriptionSucceeded
    } else if is_equal_chars(&name, &chars_of("pusher:error")) {
        PusherEvent::Error
    } else {
        PusherEvent::Other
    }
}

} // verus!
