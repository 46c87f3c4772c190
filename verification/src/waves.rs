//! Signals of a waveform: the changes that were recorded of them, and what a
//! reader sees of them at a point of the time table.
use crate::text::chars_of;
use vstd::prelude::*;

verus! {

/// A signal that `wellen` loaded from a waveform. Nothing inside it is visible here;
/// [`signal_changes`] names what it holds.
#[verifier::external_type_specification]
#[verifier::external_body]
pub struct ExSignal(wellen::Signal);

/// The value of a signal at one change.
#[derive(Debug, Clone)]
pub enum SignalValue {
    /// The signal carries no value; it only fired.
    Event,
    /// The bits, the most significant first, one character for each.
    Bits(String),
    /// A text.
    Text(String),
    /// The bit pattern of a real number.
    Real(u64),
}

/// What a [`SignalValue`] stands for.
pub enum ValueView {
    Event,
    Bits(Seq<char>),
    Text(Seq<char>),
    Real(u64),
}

impl View for SignalValue {
    type V = ValueView;

    open spec fn view(&self) -> ValueView {
        match *self {
            SignalValue::Event => ValueView::Event,
            SignalValue::Bits(digits) => ValueView::Bits(digits@),
            SignalValue::Text(text) => ValueView::Text(text@),
            SignalValue::Real(pattern) => ValueView::Real(pattern),
        }
    }
}

/// A change: its index in the time table, and the value from then on.
pub type Change = (u32, ValueView);

/// The changes that a loaded signal holds, in the order in which it holds them.
pub uninterp spec fn signal_changes(signal: wellen::Signal) -> Seq<Change>;

/// The index of the reference that a loaded signal carries.
pub uninterp spec fn signal_reference(signal: wellen::Signal) -> usize;

/// The times of a list of changes.
pub open spec fn times_of(changes: Seq<Change>) -> Seq<u32> {
    changes.map_values(|c: Change| c.0)
}

/// The changes stand in the order of their times.
pub open spec fn ordered(changes: Seq<Change>) -> bool {
    forall|i: int, j: int| 0 <= i <= j < changes.len() ==> changes[i].0 <= changes[j].0
}

/// Something was recorded at or before the time `idx`.
pub open spec fn readable_at(changes: Seq<Change>, idx: u32) -> bool {
    changes.len() > 0 && changes[0].0 <= idx
}

/// The position that `wellen::Signal::get_offset` finds for a time, among changes at the
/// given times.
pub uninterp spec fn nearest_change(times: Seq<u32>, idx: u32) -> usize;

/// The change at position `p` is what a reader at the time `idx` sees: the first of those
/// that share its time. Of changes in order it is the nearest, so that no later time up to
/// `idx` has a change; of others it is the one that the search finds.
pub open spec fn seen_at(changes: Seq<Change>, idx: u32, p: int) -> bool {
    &&& readable_at(changes, idx)
    &&& 0 <= p < changes.len()
    &&& changes[p].0 <= idx
    &&& p == 0 || changes[p - 1].0 != changes[p].0
    &&& if ordered(changes) {
        forall|j: int|
            p < j < changes.len() ==> #[trigger] changes[j].0 == changes[p].0 || changes[j].0 > idx
    } else {
        p == nearest_change(times_of(changes), idx)
    }
}

/// Position `q` is the first one after `p` whose time is another one than that at `p`.
pub open spec fn run_ends_at(changes: Seq<Change>, p: int, q: int) -> bool {
    &&& p < q < changes.len()
    &&& changes[q].0 != changes[p].0
    &&& forall|k: int| p < k < q ==> #[trigger] changes[k].0 == changes[p].0
}

/// The time that follows the one at position `p`, where there is one; the time zero
/// never follows another.
pub open spec fn next_time(changes: Seq<Change>, p: int) -> Option<u32> {
    if exists|q: int| run_ends_at(changes, p, q) && changes[q].0 != 0 {
        let q = choose|q: int| run_ends_at(changes, p, q) && changes[q].0 != 0;
        Some(changes[q].0)
    } else {
        None
    }
}

/// A reader at the time `idx` sees `value`.
pub open spec fn sees(changes: Seq<Change>, idx: u32, value: ValueView) -> bool {
    exists|p: int| #[trigger] seen_at(changes, idx, p) && changes[p].1 == value
}

/// After the change that a reader at `idx` sees, the next one comes at the time `next`.
pub open spec fn follows(changes: Seq<Change>, idx: u32, next: u32) -> bool {
    exists|p: int| #[trigger] seen_at(changes, idx, p) && next_time(changes, p) == Some(next)
}

/// A reader at `idx` sees nothing, or no readable change comes after what it sees.
pub open spec fn nothing_follows(changes: Seq<Change>, idx: u32) -> bool {
    ||| !readable_at(changes, idx)
    ||| exists|p: int| #[trigger]
        seen_at(changes, idx, p) && match next_time(changes, p) {
            Some(next) => !readable_at(changes, next),
            None => true,
        }
}

/// Where a reader finds the nearest change, and the time of the one that follows.
struct ChangeOffset {
    start: usize,
    next_index: Option<u32>,
}

/// `wellen::Signal::time_indices` gives the times of the signal's changes.
pub assume_specification[ wellen::Signal::time_indices ](signal: &wellen::Signal) -> (r: &[u32])
    ensures
        r@ == times_of(signal_changes(*signal)),
;

/// `wellen::Signal::get_offset` searches for the nearest change at or before a time. It
/// finds none exactly where the first change is later, or there is no change. Of the
/// changes that share the time found it gives the first, and with it the time that
/// follows. It is a binary search over the times alone: where the changes stand in order, no
/// change between the one found and `idx` was passed over, and where they do not, what it
/// finds is only named.
#[verifier::external_body]
fn get_offset(signal: &wellen::Signal, idx: u32) -> (r: Option<ChangeOffset>)
    ensures
        r is Some <==> readable_at(signal_changes(*signal), idx),
        r matches Some(offset) ==> {
            &&& offset.start == nearest_change(times_of(signal_changes(*signal)), idx)
            &&& seen_at(signal_changes(*signal), idx, offset.start as int)
            &&& offset.next_index == next_time(signal_changes(*signal), offset.start as int)
        },
{
    signal.get_offset(idx).map(
        |offset| ChangeOffset {
            start: offset.start,
            next_index: offset.next_index.map(|next| next.get()),
        },
    )
}

/// `wellen::SignalChangeData::get_value_at` gives the value of the change at a position.
/// A bit vector is taken as `wellen::BitVecRef::bit_string` spells it.
#[verifier::external_body]
fn value_at(signal: &wellen::Signal, position: usize) -> (r: SignalValue)
    requires
        position < signal_changes(*signal).len(),
    ensures
        r@ == signal_changes(*signal)[position as int].1,
{
    match signal.data().get_value_at(position) {
        wellen::SignalValueRef::Event => SignalValue::Event,
        wellen::SignalValueRef::BitVec(bits) => SignalValue::Bits(bits.bit_string()),
        wellen::SignalValueRef::String(text) => SignalValue::Text(text.to_string()),
        wellen::SignalValueRef::Real(number) => SignalValue::Real(number.to_bits()),
    }
}

/// `wellen::Signal::signal_ref` gives the reference that the signal carries, and
/// `wellen::SignalRef::index` its index.
#[verifier::external_body]
fn reference_of(signal: &wellen::Signal) -> (r: usize)
    ensures
        r == signal_reference(*signal),
{
    signal.signal_ref().index()
}

/// What a signal's value reads as.
pub trait Mappable: Sized {
    /// The value that a signal's value reads as, where it reads as one.
    spec fn mapped(value: ValueView) -> Option<Self>;

    /// Reads a signal's value.
    fn try_from_signal(value: SignalValue) -> (r: Option<Self>)
        ensures
            r == Self::mapped(value@),
    ;

    /// Whether two values are the same.
    fn same(&self, other: &Self) -> (r: bool)
        ensures
            r == (*self == *other),
    ;
}

/// What a reader at the time `idx` sees reads as `value`.
pub open spec fn shows<T: Mappable>(changes: Seq<Change>, idx: u32, value: T) -> bool {
    exists|p: int| #[trigger] seen_at(changes, idx, p) && T::mapped(changes[p].1) == Some(value)
}

/// What a reader at the time `idx` sees does not read as `value`.
pub open spec fn shows_other<T: Mappable>(changes: Seq<Change>, idx: u32, value: T) -> bool {
    exists|p: int| #[trigger] seen_at(changes, idx, p) && T::mapped(changes[p].1) != Some(value)
}

/// A search for the first change that reads as `value` comes to a change that cannot be
/// read, because it is earlier than the first one, before it comes to one that reads so.
pub open spec fn breaks_off<T: Mappable>(changes: Seq<Change>, value: T) -> bool {
    exists|i: int|
        {
            &&& 0 <= i < changes.len()
            &&& !readable_at(changes, (#[trigger] changes[i]).0)
            &&& forall|j: int| 0 <= j < i ==> shows_other(changes, #[trigger] changes[j].0, value)
        }
}

/// `found` is the position of the first change at whose time the signal reads as
/// `value`, in 32 bits; `None` where there is no such change.
pub open spec fn is_first_match<T: Mappable>(
    changes: Seq<Change>,
    value: T,
    found: Option<u32>,
) -> bool {
    match found {
        Some(found) => exists|i: usize|
            #![trigger changes[i as int]]
            {
                &&& i < changes.len()
                &&& found == #[verifier::truncate] (i as u32)
                &&& shows(changes, changes[i as int].0, value)
                &&& forall|j: int|
                    0 <= j < i ==> shows_other(changes, #[trigger] changes[j].0, value)
            },
        None => forall|j: int|
            0 <= j < changes.len() ==> shows_other(changes, #[trigger] changes[j].0, value),
    }
}

/// Reading a signal at points of the time table.
pub trait WellenSignalExt {
    /// The signal's changes.
    spec fn changes(&self) -> Seq<Change>;

    /// The first value available at a time: of the nearest change at or before it, the
    /// first one.
    fn try_get_val(&self, idx: u32) -> (r: Option<SignalValue>)
        ensures
            r is Some <==> readable_at(self.changes(), idx),
            r matches Some(value) ==> sees(self.changes(), idx, value@),
    ;

    /// The time of the next change after the one that is seen at `idx`, and the first
    /// value available then.
    fn try_get_next_val(&self, idx: u32) -> (r: Option<(SignalValue, u32)>)
        ensures
            match r {
                Some(found) => follows(self.changes(), idx, found.1) && sees(
                    self.changes(),
                    found.1,
                    found.0@,
                ),
                None => nothing_follows(self.changes(), idx),
            },
    ;

    /// The index of the first change whose value reads as `value`.
    ///
    /// This is a linear search, so it is not efficient for large signals.
    fn find_idx<T: Mappable>(&self, value: T) -> (r: Option<u32>)
        requires
            !breaks_off(self.changes(), value),
        ensures
            is_first_match(self.changes(), value, r),
    ;

    /// The first value available at a time from which on something was recorded.
    fn get_val(&self, idx: u32) -> (r: SignalValue)
        requires
            readable_at(self.changes(), idx),
        ensures
            sees(self.changes(), idx, r@),
    {
        self.try_get_val(idx).unwrap()
    }
}

impl WellenSignalExt for wellen::Signal {
    open spec fn changes(&self) -> Seq<Change> {
        signal_changes(*self)
    }

    fn try_get_val(&self, idx: u32) -> (r: Option<SignalValue>) {
        match get_offset(self, idx) {
            Some(offset) => Some(value_at(self, offset.start)),
            None => None,
        }
    }

    fn try_get_next_val(&self, idx: u32) -> (r: Option<(SignalValue, u32)>) {
        match get_offset(self, idx) {
            Some(offset) => match offset.next_index {
                Some(next) => match get_offset(self, next) {
                    Some(next_offset) => Some((value_at(self, next_offset.start), next)),
                    None => None,
                },
                None => None,
            },
            None => None,
        }
    }

    fn find_idx<T: Mappable>(&self, value: T) -> (r: Option<u32>) {
        match search(self, &value) {
            Search::Found(found) => Some(found),
            Search::NotFound => None,
            Search::BrokenOff => None,
        }
    }
}

/// What a search for a value in a signal came to.
#[derive(Debug, Clone, Copy, PartialEq, Eq, Structural)]
pub enum Search {
    /// The index of the first change that reads as the value.
    Found(u32),
    /// No change reads as the value.
    NotFound,
    /// A change came first that cannot be read.
    BrokenOff,
}

/// Searches a signal for the first change whose value reads as `value`, as far as its
/// changes can be read.
pub fn search<T: Mappable>(signal: &wellen::Signal, value: &T) -> (r: Search)
    ensures
        match r {
            Search::Found(found) => !breaks_off(signal_changes(*signal), *value) && is_first_match(
                signal_changes(*signal),
                *value,
                Some(found),
            ),
            Search::NotFound => !breaks_off(signal_changes(*signal), *value) && is_first_match(
                signal_changes(*signal),
                *value,
                None,
            ),
            Search::BrokenOff => breaks_off(signal_changes(*signal), *value),
        },
{
    let ghost changes = signal_changes(*signal);
    let indices = signal.time_indices();
    let mut i: usize = 0;
    while i < indices.len()
        invariant
            changes == signal_changes(*signal),
            indices@ == times_of(changes),
            0 <= i <= indices@.len(),
            forall|j: int| 0 <= j < i ==> readable_at(changes, #[trigger] changes[j].0),
            forall|j: int|
                0 <= j < i ==> shows_other(changes, #[trigger] changes[j].0, *value),
        decreases indices@.len() - i,
    {
        assert(indices@[i as int] == changes[i as int].0);
        let seen = match signal.try_get_val(indices[i]) {
            Some(seen) => seen,
            None => {
                return Search::BrokenOff;
            },
        };
        if let Some(found) = T::try_from_signal(seen) {
            if found.same(value) {
                proof {
                    assert(shows(changes, changes[i as int].0, *value));
                    not_both_shown(changes, changes[i as int].0, *value);
                }
                return Search::Found(#[verifier::truncate] (i as u32));
            }
        }
        i += 1;
    }
    Search::NotFound
}

/// The number that a text of binary digits spells, the most significant digit first.
pub open spec fn binary(digits: Seq<char>) -> Option<nat>
    decreases digits.len(),
{
    if digits.len() == 0 {
        Some(0)
    } else {
        match binary(digits.drop_last()) {
            Some(high) => if digits.last() == '0' {
                Some(2 * high)
            } else if digits.last() == '1' {
                Some(2 * high + 1)
            } else {
                None
            },
            None => None,
        }
    }
}

/// A longer text of digits never spells a smaller number.
proof fn binary_grows(digits: Seq<char>, short: int)
    requires
        0 <= short <= digits.len(),
    ensures
        binary(digits) matches Some(n) ==> binary(digits.take(short)) matches Some(m) && m <= n,
    decreases digits.len() - short,
{
    if short < digits.len() {
        binary_grows(digits, short + 1);
        assert(digits.take(short + 1).drop_last() =~= digits.take(short));
    } else {
        assert(digits.take(short) =~= digits);
    }
}

/// A number is read from a non-empty bit vector of zeros and ones that fits into it.
impl Mappable for u32 {
    open spec fn mapped(value: ValueView) -> Option<u32> {
        match value {
            ValueView::Bits(digits) => match binary(digits) {
                Some(n) => if digits.len() > 0 && n <= u32::MAX {
                    Some(n as u32)
                } else {
                    None
                },
                None => None,
            },
            _ => None,
        }
    }

    fn try_from_signal(value: SignalValue) -> (r: Option<u32>) {
        let digits = match value {
            SignalValue::Bits(text) => chars_of(text.as_str()),
            _ => {
                return None;
            },
        };
        if digits.len() == 0 {
            return None;
        }
        let mut n: u32 = 0;
        let mut i: usize = 0;
        while i < digits.len()
            invariant
                0 <= i <= digits@.len(),
                digits@.len() > 0,
                value@ == ValueView::Bits(digits@),
                binary(digits@.take(i as int)) == Some(n as nat),
            decreases digits@.len() - i,
        {
            let ghost upto = digits@.take(i + 1);
            assert(upto.drop_last() =~= digits@.take(i as int));
            proof {
                binary_grows(digits@, i + 1);
            }
            if digits[i] != '0' && digits[i] != '1' {
                return None;
            }
            let bit: u32 = if digits[i] == '1' {
                1
            } else {
                0
            };
            if n > (u32::MAX - bit) / 2 {
                return None;
            }
            n = 2 * n + bit;
            i += 1;
        }
        assert(digits@.take(i as int) =~= digits@);
        Some(n)
    }

    fn same(&self, other: &u32) -> (r: bool) {
        *self == *other
    }
}

/// A text of `width` zeros.
pub open spec fn zeros(width: nat) -> Seq<char> {
    Seq::new(width, |i: int| '0')
}

/// A signal of the debugged design: recorded in the waveform, or constant from one point of
/// the time table on.
pub enum Wave {
    /// Loaded from the waveform.
    Recorded(wellen::Signal),
    /// One change, to the given bits, and the index by which the signal is referred to.
    Constant { reference: usize, digits: String, times: [u32; 1] },
}

impl Wave {
    /// The index by which the signal is referred to.
    pub open spec fn reference(&self) -> usize {
        match *self {
            Wave::Recorded(signal) => signal_reference(signal),
            Wave::Constant { reference, digits: _, times: _ } => reference,
        }
    }

    /// The index by which the signal is referred to.
    pub fn signal_ref(&self) -> (r: usize)
        ensures
            r == self.reference(),
    {
        match self {
            Wave::Recorded(signal) => reference_of(signal),
            Wave::Constant { reference, digits: _, times: _ } => *reference,
        }
    }

    /// The times of the signal's changes.
    pub fn time_indices(&self) -> (r: &[u32])
        ensures
            r@ == times_of(self.changes()),
    {
        match self {
            Wave::Recorded(signal) => signal.time_indices(),
            Wave::Constant { reference: _, digits: _, times } => {
                let r = times.as_slice();
                assert(r@ =~= times_of(self.changes()));
                r
            },
        }
    }
}

impl WellenSignalExt for Wave {
    open spec fn changes(&self) -> Seq<Change> {
        match *self {
            Wave::Recorded(signal) => signal_changes(signal),
            Wave::Constant { reference: _, digits, times } => seq![
                (times[0], ValueView::Bits(digits@)),
            ],
        }
    }

    fn try_get_val(&self, idx: u32) -> (r: Option<SignalValue>) {
        match self {
            Wave::Recorded(signal) => signal.try_get_val(idx),
            Wave::Constant { reference: _, digits, times } => if times[0] <= idx {
                assert(seen_at(self.changes(), idx, 0));
                Some(SignalValue::Bits(digits.clone()))
            } else {
                None
            },
        }
    }

    fn try_get_next_val(&self, idx: u32) -> (r: Option<(SignalValue, u32)>) {
        match self {
            Wave::Recorded(signal) => signal.try_get_next_val(idx),
            Wave::Constant { reference: _, digits: _, times: _ } => {
                assert(readable_at(self.changes(), idx) ==> seen_at(self.changes(), idx, 0));
                None
            },
        }
    }

    fn find_idx<T: Mappable>(&self, value: T) -> (r: Option<u32>) {
        match self {
            Wave::Recorded(signal) => signal.find_idx(value),
            Wave::Constant { reference: _, digits, times } => {
                assert(seen_at(self.changes(), times[0], 0));
                assert(self.changes()[0usize as int].0 == times[0]);
                if let Some(found) = T::try_from_signal(SignalValue::Bits(digits.clone())) {
                    if found.same(&value) {
                        assert(shows(self.changes(), self.changes()[0usize as int].0, value));
                        return Some(0);
                    }
                }
                None
            },
        }
    }
}

/// The index by which signals that no waveform holds are referred to.
pub const ZERO_SIGNAL_REFERENCE: usize = 0xdeadbeef;

/// A constant-zero signal, for a register that the waveform does not hold: one that is
/// hardwired to zero, or that was not traced. It has one change, at `time_table_idx`, so
/// that a reader at that time or later sees zero. `wellen` exports no way to build a bit
/// vector under a reference of one's choice, so this is no signal of `wellen`.
pub fn make_zero_signal(width: u32, time_table_idx: u32) -> (r: Wave)
    requires
        0 < width <= u32::MAX - 7,
    ensures
        r.changes() == seq![(time_table_idx, ValueView::Bits(zeros(width as nat)))],
        r.reference() == 0xdeadbeef,
{
    let mut digits = String::new();
    let mut i: u32 = 0;
    while i < width
        invariant
            0 <= i <= width,
            digits@ == zeros(i as nat),
        decreases width - i,
    {
        digits.push('0');
        i += 1;
        assert(digits@ =~= zeros(i as nat));
    }
    Wave::Constant { reference: ZERO_SIGNAL_REFERENCE, digits, times: [time_table_idx] }
}

/// At any one time a reader sees one change of a signal.
pub proof fn seen_change_is_unique(changes: Seq<Change>, idx: u32, p: int, q: int)
    requires
        seen_at(changes, idx, p),
        seen_at(changes, idx, q),
    ensures
        p == q,
{
    if ordered(changes) {
        if p < q {
            assert(changes[q].0 == changes[p].0);
            assert(changes[p].0 <= changes[q - 1].0 <= changes[q].0);
        } else if q < p {
            assert(changes[p].0 == changes[q].0);
            assert(changes[q].0 <= changes[p - 1].0 <= changes[p].0);
        }
    }
}

/// What a reader sees of a signal never both reads as a value and does not.
pub proof fn not_both_shown<T: Mappable>(changes: Seq<Change>, idx: u32, value: T)
    ensures
        !(shows(changes, idx, value) && shows_other(changes, idx, value)),
{
    if shows(changes, idx, value) && shows_other(changes, idx, value) {
        let q = choose|q: int| #[trigger]
            seen_at(changes, idx, q) && T::mapped(changes[q].1) == Some(value);
        let r = choose|r: int| #[trigger]
            seen_at(changes, idx, r) && T::mapped(changes[r].1) != Some(value);
        seen_change_is_unique(changes, idx, q, r);
    }
}

/// From the first change on, a reader always sees one.
pub proof fn readable_means_seen(changes: Seq<Change>, idx: u32) -> (p: int)
    requires
        ordered(changes),
        readable_at(changes, idx),
    ensures
        seen_at(changes, idx, p),
{
    let last = last_upto(changes, idx, changes.len() as int);
    run_start(changes, idx, last)
}

/// The last position below `n` whose time is at most `idx`.
proof fn last_upto(changes: Seq<Change>, idx: u32, n: int) -> (p: int)
    requires
        readable_at(changes, idx),
        0 < n <= changes.len(),
    ensures
        0 <= p < n,
        changes[p].0 <= idx,
        forall|j: int| p < j < n ==> #[trigger] changes[j].0 > idx,
    decreases n,
{
    if changes[n - 1].0 <= idx {
        n - 1
    } else {
        last_upto(changes, idx, n - 1)
    }
}

/// The first position of the run that ends at `p`.
proof fn run_start(changes: Seq<Change>, idx: u32, p: int) -> (q: int)
    requires
        ordered(changes),
        0 <= p < changes.len(),
        changes[p].0 <= idx,
        forall|j: int|
            p < j < changes.len() ==> #[trigger] changes[j].0 == changes[p].0 || changes[j].0 > idx,
    ensures
        seen_at(changes, idx, q),
    decreases p,
{
    if p > 0 && changes[p - 1].0 == changes[p].0 {
        run_start(changes, idx, p - 1)
    } else {
        p
    }
}

/// The next change of a signal whose changes stand in order comes later than the time
/// that was asked about, and none comes between the two.
pub proof fn next_change_is_the_nearest(changes: Seq<Change>, idx: u32, next: u32, i: int)
    requires
        ordered(changes),
        follows(changes, idx, next),
        0 <= i < changes.len(),
    ensures
        idx < next,
        readable_at(changes, next),
        changes[i].0 <= idx || next <= changes[i].0,
{
    let p = choose|p: int| #[trigger]
        seen_at(changes, idx, p) && next_time(changes, p) == Some(next);
    let q = choose|q: int| run_ends_at(changes, p, q) && changes[q].0 != 0;
    assert(changes[q].0 == next);
    assert(changes[0].0 <= changes[p].0);
    if i < q {
        if i <= p {
            assert(changes[i].0 <= changes[p].0);
        }
    } else {
        assert(changes[q].0 <= changes[i].0);
    }
}

/// A reader at or after the one change of a zero signal sees zero, and before it sees
/// nothing.
pub proof fn zero_signal_reads_zero(wave: Wave, width: u32, time_table_idx: u32, idx: u32)
    requires
        wave.changes() == seq![(time_table_idx, ValueView::Bits(zeros(width as nat)))],
    ensures
        readable_at(wave.changes(), idx) <==> time_table_idx <= idx,
        time_table_idx <= idx ==> sees(wave.changes(), idx, ValueView::Bits(zeros(width as nat))),
        forall|value: ValueView| #[trigger]
            sees(wave.changes(), idx, value) ==> value == ValueView::Bits(zeros(width as nat)),
        nothing_follows(wave.changes(), idx),
{
    if time_table_idx <= idx {
        assert(seen_at(wave.changes(), idx, 0));
    }
}

/// A text of zeros spells zero.
proof fn zeros_spell_zero(width: nat)
    ensures
        binary(zeros(width)) == Some(0nat),
    decreases width,
{
    if width > 0 {
        zeros_spell_zero((width - 1) as nat);
        assert(zeros(width).drop_last() =~= zeros((width - 1) as nat));
    }
}

/// What a reader sees of a zero signal reads as the number zero.
pub proof fn zero_signal_reads_as_number_zero(width: u32)
    requires
        width > 0,
    ensures
        u32::mapped(ValueView::Bits(zeros(width as nat))) == Some(0u32),
{
    zeros_spell_zero(width as nat);
}

/// What a reader sees of a signal whose changes stand in order either reads as a value or
/// does not.
pub proof fn showing_excludes_showing_other<T: Mappable>(changes: Seq<Change>, idx: u32, value: T)
    requires
        ordered(changes),
        readable_at(changes, idx),
    ensures
        shows(changes, idx, value) != shows_other(changes, idx, value),
{
    let p = readable_means_seen(changes, idx);
    not_both_shown(changes, idx, value);
}

/// A signal has one first match of a value, or none.
pub proof fn first_match_is_unique<T: Mappable>(
    changes: Seq<Change>,
    value: T,
    a: Option<u32>,
    b: Option<u32>,
)
    requires
        is_first_match(changes, value, a),
        is_first_match(changes, value, b),
    ensures
        a == b,
{
    assert forall|i: int| 0 <= i < changes.len() implies !(shows(
        changes,
        (#[trigger] changes[i]).0,
        value,
    ) && shows_other(changes, changes[i].0, value)) by {
        not_both_shown(changes, changes[i].0, value);
    }
}

} // verus!
