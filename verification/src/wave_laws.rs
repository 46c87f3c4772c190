//! What is read from signals, and which of them are stepped through, in terms of the changes
//! and the names that they have.
use crate::merge::is_merge;
use crate::merge::last_taken;
use crate::merge::lengths;
use crate::merge::merge_holds_every_entry;
use crate::merge::merged_upto;
use crate::text::decimal;
use crate::waveloader::converted;
use crate::waveloader::is_loaded;
use crate::waveloader::is_selection;
use crate::waveloader::is_register;
use crate::waveloader::lacks_changes;
use crate::waveloader::loadable;
use crate::waveloader::missing;
use crate::waveloader::register_name;
use crate::waveloader::required_changes;
use crate::waveloader::required_times;
use crate::waveloader::Loaded;
use crate::waveloader::RequiredWaves;
use crate::waves::binary;
use crate::waves::breaks_off;
use crate::waves::follows;
use crate::waves::is_first_match;
use crate::waves::next_time;
use crate::waves::nothing_follows;
use crate::waves::readable_at;
use crate::waves::readable_means_seen;
use crate::waves::run_ends_at;
use crate::waves::seen_at;
use crate::waves::seen_change_is_unique;
use crate::waves::sees;
use crate::waves::shows;
use crate::waves::shows_other;
use crate::waves::signal_changes;
use crate::waves::signal_reference;
use crate::waves::times_of;
use crate::waves::Change;
use crate::waves::Mappable;
use crate::waves::ValueView;
use crate::waves::Wave;
use crate::waves::WellenSignalExt;
use vstd::prelude::*;

verus! {

proof fn other_digit_spells_nothing(digits: Seq<char>, i: int)
    requires
        0 <= i < digits.len(),
        digits[i] != '0',
        digits[i] != '1',
    ensures
        binary(digits) is None,
    decreases digits.len(),
{
    if i < digits.len() - 1 {
        other_digit_spells_nothing(digits.drop_last(), i);
    }
}

/// A bit alone reads as itself, and a further bit at the end of a number stands for twice the
/// number and the bit, as long as that fits into 32 bits.
pub proof fn further_bit_doubles_the_number(digits: Seq<char>)
    ensures
        u32::mapped(ValueView::Bits(seq!['0'])) == Some(0u32),
        u32::mapped(ValueView::Bits(seq!['1'])) == Some(1u32),
        digits.len() > 0 ==> match u32::mapped(ValueView::Bits(digits)) {
            Some(n) => {
                let even = u32::mapped(ValueView::Bits(digits + seq!['0']));
                let odd = u32::mapped(ValueView::Bits(digits + seq!['1']));
                if n <= 0x7fff_ffff {
                    &&& even matches Some(m) && m == 2 * n
                    &&& odd matches Some(m) && m == 2 * n + 1
                } else {
                    even is None && odd is None
                }
            },
            None => u32::mapped(ValueView::Bits(digits + seq!['0'])) is None && u32::mapped(
                ValueView::Bits(digits + seq!['1']),
            ) is None,
        },
{
    reveal_with_fuel(binary, 2);
    assert(seq!['0'].drop_last() =~= Seq::<char>::empty());
    assert(seq!['1'].drop_last() =~= Seq::<char>::empty());
    assert((digits + seq!['0']).drop_last() =~= digits);
    assert((digits + seq!['1']).drop_last() =~= digits);
}

/// What is no bit vector, has no bit, or has a bit that is neither zero nor one reads as no
/// number.
pub proof fn only_bits_read_as_a_number(value: ValueView, i: int)
    ensures
        !(value is Bits) ==> u32::mapped(value) is None,
        value matches ValueView::Bits(digits) ==> {
            &&& digits.len() == 0 ==> u32::mapped(value) is None
            &&& 0 <= i < digits.len() && digits[i] != '0' && digits[i] != '1' ==> u32::mapped(value)
                is None
        },
{
    if let ValueView::Bits(digits) = value {
        if 0 <= i < digits.len() && digits[i] != '0' && digits[i] != '1' {
            other_digit_spells_nothing(digits, i);
        }
    }
}

/// The changes stand in the order of their times.
pub open spec fn in_time(changes: Seq<Change>) -> bool {
    forall|i: int, j: int| 0 <= i <= j < changes.len() ==> changes[i].0 <= changes[j].0
}

/// A signal in order can be read at a time exactly where something changed at or before it. What
/// is read is the first of the changes at the latest such time.
pub proof fn latest_change_is_read(changes: Seq<Change>, idx: u32, p: int, value: ValueView)
    requires
        in_time(changes),
        0 <= p < changes.len(),
        p > 0 ==> changes[p - 1].0 < changes[p].0,
    ensures
        changes[p].0 <= idx ==> readable_at(changes, idx),
        (forall|j: int| 0 <= j < changes.len() ==> (#[trigger] changes[j]).0 > idx)
            ==> !readable_at(changes, idx) && !sees(changes, idx, value),
        changes[p].0 <= idx && (forall|j: int|
            0 <= j < changes.len() && (#[trigger] changes[j]).0 <= idx ==> changes[j].0
                <= changes[p].0) ==> (sees(changes, idx, value) <==> value == changes[p].1),
{
    assert(changes[0].0 <= changes[p].0);
    if changes[p].0 <= idx && (forall|j: int|
        0 <= j < changes.len() && (#[trigger] changes[j]).0 <= idx ==> changes[j].0
            <= changes[p].0) {
        assert(seen_at(changes, idx, p));
        if sees(changes, idx, value) {
            let q = choose|q: int| #[trigger]
                seen_at(changes, idx, q) && changes[q].1 == value;
            seen_change_is_unique(changes, idx, p, q);
        }
    }
}

/// Of a signal in order that can be read at a time, a change follows exactly where one comes
/// later, and it is the earliest of those.
pub proof fn earliest_later_change_follows(changes: Seq<Change>, idx: u32, next: u32)
    requires
        in_time(changes),
        readable_at(changes, idx),
    ensures
        nothing_follows(changes, idx) <==> forall|i: int|
            0 <= i < changes.len() ==> (#[trigger] changes[i]).0 <= idx,
        follows(changes, idx, next) <==> {
            &&& next > idx
            &&& exists|i: int| 0 <= i < changes.len() && (#[trigger] changes[i]).0 == next
            &&& forall|i: int|
                0 <= i < changes.len() && (#[trigger] changes[i]).0 > idx ==> changes[i].0 >= next
        },
{
    let p = readable_means_seen(changes, idx);
    if forall|i: int| 0 <= i < changes.len() ==> (#[trigger] changes[i]).0 <= idx {
        assert forall|q: int| !(run_ends_at(changes, p, q) && changes[q].0 != 0) by {
            if run_ends_at(changes, p, q) {
                assert(changes[q].0 <= idx);
            }
        }
        assert(next_time(changes, p) is None);
        if follows(changes, idx, next) {
            let r = choose|r: int| #[trigger]
                seen_at(changes, idx, r) && next_time(changes, r) == Some(next);
            seen_change_is_unique(changes, idx, p, r);
        }
    } else {
        let late = choose|i: int| 0 <= i < changes.len() && !((#[trigger] changes[i]).0 <= idx);
        assert(p < late) by {
            if late <= p {
                assert(changes[late].0 <= changes[p].0);
            }
        }
        let q = first_other(changes, p, late);
        assert(changes[q].0 > idx);
        assert(run_ends_at(changes, p, q) && changes[q].0 != 0);
        let chosen = choose|k: int| run_ends_at(changes, p, k) && changes[k].0 != 0;
        assert(chosen == q) by {
            if chosen < q {
                assert(changes[chosen].0 == changes[p].0);
            } else if q < chosen {
                assert(changes[q].0 == changes[p].0);
            }
        }
        assert(next_time(changes, p) == Some(changes[q].0));
        assert(readable_at(changes, changes[q].0)) by {
            assert(changes[0].0 <= changes[q].0);
        }
        assert forall|i: int|
            0 <= i < changes.len() && (#[trigger] changes[i]).0 > idx implies changes[i].0
            >= changes[q].0 by {
            if i < q {
                if i <= p {
                    assert(changes[i].0 <= changes[p].0);
                } else {
                    assert(changes[i].0 == changes[p].0);
                }
            }
        }
        if follows(changes, idx, next) {
            let r = choose|r: int| #[trigger]
                seen_at(changes, idx, r) && next_time(changes, r) == Some(next);
            seen_change_is_unique(changes, idx, p, r);
        }
        if nothing_follows(changes, idx) {
            let r = choose|r: int| #[trigger]
                seen_at(changes, idx, r) && match next_time(changes, r) {
                    Some(next) => !readable_at(changes, next),
                    None => true,
                };
            seen_change_is_unique(changes, idx, p, r);
        }
    }
}

/// The first position after `p`, up to `late`, with another time than that at `p`.
proof fn first_other(changes: Seq<Change>, p: int, late: int) -> (q: int)
    requires
        0 <= p < late < changes.len(),
        changes[late].0 != changes[p].0,
    ensures
        p < q <= late,
        run_ends_at(changes, p, q),
    decreases late - p,
{
    if exists|k: int| p < k < late && (#[trigger] changes[k]).0 != changes[p].0 {
        let k = choose|k: int| p < k < late && (#[trigger] changes[k]).0 != changes[p].0;
        first_other(changes, p, k)
    } else {
        late
    }
}

/// No two changes have the same time, and they stand in the order of their times.
pub open spec fn one_by_one(changes: Seq<Change>) -> bool {
    forall|i: int, j: int| 0 <= i < j < changes.len() ==> changes[i].0 < changes[j].0
}

proof fn each_change_is_seen_at_its_time<T: Mappable>(changes: Seq<Change>, i: int, value: T)
    requires
        one_by_one(changes),
        0 <= i < changes.len(),
    ensures
        readable_at(changes, changes[i].0),
        shows(changes, changes[i].0, value) <==> T::mapped(changes[i].1) == Some(value),
        shows_other(changes, changes[i].0, value) <==> T::mapped(changes[i].1) != Some(value),
{
    let idx = changes[i].0;
    assert(changes[0].0 <= idx);
    assert(seen_at(changes, idx, i));
    assert forall|p: int| #[trigger] seen_at(changes, idx, p) implies p == i by {
        seen_change_is_unique(changes, idx, p, i);
    }
}

/// The search for a value in a signal whose changes come one by one finds the position of the
/// first change that reads as the value, and none exactly where no change does; it never breaks
/// off.
pub proof fn search_finds_the_first_change<T: Mappable>(changes: Seq<Change>, value: T, i: u32)
    requires
        one_by_one(changes),
        changes.len() <= u32::MAX,
    ensures
        !breaks_off(changes, value),
        is_first_match(changes, value, Some(i)) <==> {
            &&& i < changes.len()
            &&& T::mapped(changes[i as int].1) == Some(value)
            &&& forall|j: int|
                0 <= j < i ==> T::mapped((#[trigger] changes[j]).1) != Some(value)
        },
        is_first_match(changes, value, None) <==> forall|j: int|
            0 <= j < changes.len() ==> T::mapped((#[trigger] changes[j]).1) != Some(value),
{
    if breaks_off(changes, value) {
        let k = choose|k: int|
            {
                &&& 0 <= k < changes.len()
                &&& !readable_at(changes, (#[trigger] changes[k]).0)
                &&& forall|j: int|
                    0 <= j < k ==> shows_other(changes, #[trigger] changes[j].0, value)
            };
        each_change_is_seen_at_its_time(changes, k, value);
    }
    no_match_means_no_value(changes, value);
    if is_first_match(changes, value, Some(i)) {
        let k = choose|k: usize|
            #![trigger changes[k as int]]
            {
                &&& k < changes.len()
                &&& i == #[verifier::truncate] (k as u32)
                &&& shows(changes, changes[k as int].0, value)
                &&& forall|j: int|
                    0 <= j < k ==> shows_other(changes, #[trigger] changes[j].0, value)
            };
        assert(k as int == i as int);
        each_change_is_seen_at_its_time(changes, k as int, value);
        assert forall|j: int| 0 <= j < i implies T::mapped((#[trigger] changes[j]).1) != Some(
            value,
        ) by {
            each_change_is_seen_at_its_time(changes, j, value);
        }
    }
    if i < changes.len() && T::mapped(changes[i as int].1) == Some(value) && (forall|j: int|
        0 <= j < i ==> T::mapped((#[trigger] changes[j]).1) != Some(value)) {
        let k = i as usize;
        each_change_is_seen_at_its_time(changes, k as int, value);
        assert forall|j: int| 0 <= j < k implies shows_other(
            changes,
            #[trigger] changes[j].0,
            value,
        ) by {
            each_change_is_seen_at_its_time(changes, j, value);
        }
        assert(is_first_match(changes, value, Some(i)));
    }
}

proof fn no_match_means_no_value<T: Mappable>(changes: Seq<Change>, value: T)
    requires
        one_by_one(changes),
    ensures
        is_first_match(changes, value, None) <==> forall|j: int|
            0 <= j < changes.len() ==> T::mapped((#[trigger] changes[j]).1) != Some(value),
{
    if is_first_match(changes, value, None) {
        assert forall|j: int| 0 <= j < changes.len() implies T::mapped((#[trigger] changes[j]).1)
            != Some(value) by {
            each_change_is_seen_at_its_time(changes, j, value);
        }
    }
    if forall|j: int|
        0 <= j < changes.len() ==> T::mapped((#[trigger] changes[j]).1) != Some(value) {
        assert forall|j: int| 0 <= j < changes.len() implies shows_other(
            changes,
            #[trigger] changes[j].0,
            value,
        ) by {
            each_change_is_seen_at_its_time(changes, j, value);
        }
    }
}

/// A search breaks off only over a change that is earlier than the first one.
pub proof fn search_breaks_off_over_an_earlier_change<T: Mappable>(
    changes: Seq<Change>,
    value: T,
)
    requires
        breaks_off(changes, value),
    ensures
        exists|i: int| 0 < i < changes.len() && (#[trigger] changes[i]).0 < changes[0].0,
{
    let i = choose|i: int|
        {
            &&& 0 <= i < changes.len()
            &&& !readable_at(changes, (#[trigger] changes[i]).0)
            &&& forall|j: int| 0 <= j < i ==> shows_other(changes, #[trigger] changes[j].0, value)
        };
    assert(changes[i].0 < changes[0].0);
}

/// Every signal that could be converted is kept under its name, unless a later one of the same
/// name takes its place.
pub proof fn converted_signal_is_kept(
    extracted: Seq<(String, Option<wellen::Signal>)>,
    i: int,
)
    requires
        0 <= i < extracted.len(),
        extracted[i].1 is Some,
        forall|j: int|
            i < j < extracted.len() && (#[trigger] extracted[j]).0@ == extracted[i].0@
                ==> extracted[j].1 is None,
    ensures
        converted(extracted).contains_key(extracted[i].0@),
        converted(extracted)[extracted[i].0@] == extracted[i].1->0,
    decreases extracted.len(),
{
    if i < extracted.len() - 1 {
        let shorter = extracted.drop_last();
        assert(forall|j: int| 0 <= j < shorter.len() ==> shorter[j] == #[trigger] extracted[j]);
        converted_signal_is_kept(shorter, i);
    }
}

/// Every name that is kept comes from the list: from the last signal of that name that could be
/// converted, which is what is kept under it.
pub proof fn kept_name_was_converted(
    extracted: Seq<(String, Option<wellen::Signal>)>,
    name: Seq<char>,
) -> (i: int)
    requires
        converted(extracted).contains_key(name),
    ensures
        0 <= i < extracted.len(),
        extracted[i].0@ == name,
        extracted[i].1 == Some(converted(extracted)[name]),
        forall|j: int|
            i < j < extracted.len() && (#[trigger] extracted[j]).0@ == name ==> extracted[j].1
                is None,
    decreases extracted.len(),
{
    let last = extracted.len() - 1;
    if extracted.last().1 is Some && extracted.last().0@ == name {
        last
    } else {
        let shorter = extracted.drop_last();
        assert(forall|j: int| 0 <= j < shorter.len() ==> shorter[j] == #[trigger] extracted[j]);
        let i = kept_name_was_converted(shorter, name);
        assert(shorter[i] == extracted[i]);
        i
    }
}

/// The missing names stand in the order in which the names are asked for: the program
/// counter, then the registers by their numbers.
pub proof fn missing_names_stand_in_order(signals: Map<Seq<char>, wellen::Signal>, n: nat)
    ensures
        missing(signals, n) == (seq!["pc"@] + Seq::new(
            n,
            |i: int| "x"@ + decimal(i as nat),
        )).filter(|name: Seq<char>| !signals.contains_key(name)),
    decreases n,
{
    reveal(Seq::filter);
    let absent = |name: Seq<char>| !signals.contains_key(name);
    let names = seq!["pc"@] + Seq::new(n, |i: int| "x"@ + decimal(i as nat));
    if n > 0 {
        let shorter = seq!["pc"@] + Seq::new(
            (n - 1) as nat,
            |i: int| "x"@ + decimal(i as nat),
        );
        missing_names_stand_in_order(signals, (n - 1) as nat);
        assert(names.drop_last() =~= shorter);
        assert(names.last() == register_name((n - 1) as nat));
    } else {
        assert(names =~= seq!["pc"@]);
        assert(names.drop_last() =~= Seq::<Seq<char>>::empty());
        reveal_with_fuel(Seq::filter, 3);
        assert(missing(signals, 0) =~= names.filter(absent));
    }
}

/// The selected waves are the signals of their names: the program counter is the one named
/// `pc`, and register `i` the one named `x` and its number, or constant zero from the start
/// where there is none of that name.
pub proof fn waves_are_selected_by_name(
    signals: Map<Seq<char>, wellen::Signal>,
    waves: RequiredWaves,
    i: nat,
)
    requires
        is_selection(signals, waves),
        i < 32,
    ensures
        signals.contains_key("pc"@),
        waves.pc == signals["pc"@],
        waves.gprs@.len() == 32,
        signals.contains_key("x"@ + decimal(i)) ==> waves.gprs@[i as int] == Wave::Recorded(
            signals["x"@ + decimal(i)],
        ),
        !signals.contains_key("x"@ + decimal(i)) ==> {
            let changes = waves.gprs@[i as int].changes();
            &&& changes.len() == 1
            &&& changes[0].0 == 0
            &&& changes[0].1 matches ValueView::Bits(digits) && digits.len() == 32 && forall|k: int|
                0 <= k < 32 ==> #[trigger] digits[k] == '0'
            &&& waves.gprs@[i as int].reference() == 0xdeadbeef
        },
{
    assert(is_register(signals, i, waves.gprs@[i as int]));
}

/// A loaded waveform starts at the position of the first change by which the program counter has
/// the value that was asked for, and keeps the time table. A point of the table is visited
/// exactly where the program counter or one of the registers changes.
pub proof fn loaded_waveform_starts_at_the_value<T: Mappable>(
    signals: Map<Seq<char>, wellen::Signal>,
    all_times: Seq<u64>,
    first_pc: T,
    loaded: Loaded,
    time: u32,
)
    requires
        is_loaded(signals, all_times, first_pc, loaded),
        one_by_one(signal_changes(signals["pc"@])),
        signal_changes(signals["pc"@]).len() <= u32::MAX,
    ensures
        ({
            let pc = signal_changes(signals["pc"@]);
            let start = loaded.cursor.time_idx as int;
            &&& start < pc.len()
            &&& T::mapped(pc[start].1) == Some(first_pc)
            &&& forall|j: int|
                0 <= j < start ==> T::mapped((#[trigger] pc[j]).1) != Some(first_pc)
            &&& loaded.cursor.all_times@ == all_times
        }),
        loaded.waves.pc == signals["pc"@],
        loaded.cursor.all_changes@.contains(time) <==> {
            ||| exists|p: int|
                0 <= p < signal_changes(loaded.waves.pc).len() && (#[trigger] signal_changes(
                    loaded.waves.pc,
                )[p]).0 == time
            ||| exists|i: int, p: int|
                0 <= i < 32 && 0 <= p < loaded.waves.gprs@[i].changes().len() && (
                #[trigger] loaded.waves.gprs@[i].changes()[p]).0 == time
        },
{
    search_finds_the_first_change(
        signal_changes(signals["pc"@]),
        first_pc,
        loaded.cursor.time_idx,
    );
    waves_are_selected_by_name(signals, loaded.waves, 0);
    let waves = loaded.waves;
    let changes = required_changes(waves);
    let times = required_times(waves);
    merge_holds_every_entry(times, loaded.cursor.all_changes@, time);
    assert(changes[0] == signal_changes(waves.pc));
    assert(changes.len() == 33);
    assert forall|i: int| 0 <= i < 32 implies changes[i + 1] == (
    #[trigger] waves.gprs@[i]).changes() by {}
    assert forall|i: int| 0 <= i < 33 implies #[trigger] times[i] == times_of(changes[i]) by {}
    if loaded.cursor.all_changes@.contains(time) {
        let (i, p) = choose|i: int, p: int|
            0 <= i < times.len() && 0 <= p < times[i].len() && #[trigger] times[i][p] == time;
        assert(times[i] == times_of(changes[i]));
        assert(changes[i][p].0 == time);
        if i == 0 {
            assert(signal_changes(waves.pc)[p].0 == time);
        } else {
            assert(changes[i - 1 + 1] == waves.gprs@[i - 1].changes());
            assert(waves.gprs@[i - 1].changes()[p].0 == time);
        }
    }
    if exists|p: int|
        0 <= p < signal_changes(waves.pc).len() && (#[trigger] signal_changes(waves.pc)[p]).0
            == time {
        let p = choose|p: int|
            0 <= p < signal_changes(waves.pc).len() && (#[trigger] signal_changes(waves.pc)[p]).0
                == time;
        assert(times[0] == times_of(changes[0]));
        assert(times[0][p] == time);
    }
    if exists|i: int, p: int|
        0 <= i < 32 && 0 <= p < waves.gprs@[i].changes().len() && (
        #[trigger] waves.gprs@[i].changes()[p]).0 == time {
        let (i, p) = choose|i: int, p: int|
            0 <= i < 32 && 0 <= p < waves.gprs@[i].changes().len() && (
            #[trigger] waves.gprs@[i].changes()[p]).0 == time;
        assert(changes[i + 1] == waves.gprs@[i].changes());
        assert(times[i + 1] == times_of(changes[i + 1]));
        assert(times[i + 1][p] == time);
    }
}

/// Signals can be stepped through from a value exactly where the program counter is among them,
/// it and every register that is among them changes, and the program counter has that value at
/// some change.
pub proof fn loadable_means_changing_and_found<T: Mappable>(
    signals: Map<Seq<char>, wellen::Signal>,
    first_pc: T,
)
    requires
        one_by_one(signal_changes(signals["pc"@])),
        signal_changes(signals["pc"@]).len() <= u32::MAX,
    ensures
        loadable(signals, first_pc) <==> {
            &&& signals.contains_key("pc"@)
            &&& forall|i: nat|
                i < 32 && signals.contains_key("x"@ + #[trigger] decimal(i)) ==> signal_changes(
                    signals["x"@ + decimal(i)],
                ).len() > 0
            &&& exists|p: int|
                0 <= p < signal_changes(signals["pc"@]).len() && T::mapped(
                    (#[trigger] signal_changes(signals["pc"@])[p]).1,
                ) == Some(first_pc)
        },
        lacks_changes(signals) <==> signal_changes(signals["pc"@]).len() == 0 || exists|i: nat|
            i < 32 && signals.contains_key("x"@ + #[trigger] decimal(i)) && signal_changes(
                signals["x"@ + decimal(i)],
            ).len() == 0,
{
    search_finds_the_first_change(signal_changes(signals["pc"@]), first_pc, 0);
    assert(forall|i: nat| #[trigger] register_name(i) == "x"@ + decimal(i));
    if lacks_changes(signals) && signal_changes(signals["pc"@]).len() > 0 {
        let i = choose|i: nat|
            i < 32 && signals.contains_key(#[trigger] register_name(i)) && signal_changes(
                signals[register_name(i)],
            ).len() == 0;
        assert(signals.contains_key("x"@ + decimal(i)));
    }
    if exists|i: nat|
        i < 32 && signals.contains_key("x"@ + #[trigger] decimal(i)) && signal_changes(
            signals["x"@ + decimal(i)],
        ).len() == 0 {
        let i = choose|i: nat|
            i < 32 && signals.contains_key("x"@ + #[trigger] decimal(i)) && signal_changes(
                signals["x"@ + decimal(i)],
            ).len() == 0;
        assert(signals.contains_key(register_name(i)));
    }
}

/// A search breaks off over a change that is earlier than the first one where what is read at
/// each change before it is another value.
pub proof fn earlier_change_breaks_a_search_off<T: Mappable>(
    changes: Seq<Change>,
    value: T,
    i: int,
)
    requires
        0 <= i < changes.len(),
        changes[i].0 < changes[0].0,
        forall|j: int|
            0 <= j < i ==> exists|seen: ValueView|
                sees(changes, (#[trigger] changes[j]).0, seen) && #[trigger] T::mapped(seen) != Some(
                    value,
                ),
    ensures
        breaks_off(changes, value),
{
    assert forall|j: int| 0 <= j < i implies shows_other(
        changes,
        #[trigger] changes[j].0,
        value,
    ) by {
        let seen = choose|seen: ValueView|
            sees(changes, changes[j].0, seen) && #[trigger] T::mapped(seen) != Some(value);
        let p = choose|p: int| #[trigger]
            seen_at(changes, changes[j].0, p) && changes[p].1 == seen;
        assert(T::mapped(changes[p].1) != Some(value));
    }
    assert(!readable_at(changes, changes[i].0));
}

/// A recorded wave has the changes and the reference of its signal.
pub proof fn recorded_wave_is_its_signal(signal: wellen::Signal)
    ensures
        Wave::Recorded(signal).changes() == signal_changes(signal),
        Wave::Recorded(signal).reference() == signal_reference(signal),
{
}

proof fn rest_is_merged_upto(arrays: Seq<Seq<u32>>, at: Seq<int>, out: Seq<u32>) -> (i: int)
    requires
        merged_upto(arrays, at, out),
        out.len() > 0,
    ensures
        0 <= i < arrays.len(),
        at[i] > 0,
        arrays[i].len() > 0,
        out[0] == arrays[i][0],
        forall|j: int|
            0 <= j < arrays.len() && arrays[j].len() > 0 ==> out[0] <= (#[trigger] arrays[j])[0],
        merged_upto(
            arrays.update(i, arrays[i].drop_first()),
            at.update(i, at[i] - 1),
            out.drop_first(),
        ),
    decreases out.len(),
{
    let e = out.last();
    let j = choose|j: int| #[trigger]
        last_taken(arrays, at, j, e) && merged_upto(
            arrays,
            at.update(j, at[j] - 1),
            out.drop_last(),
        );
    let prev = at.update(j, at[j] - 1);
    let rest = out.drop_last();
    if out.len() == 1 {
        assert(forall|k: int| 0 <= k < prev.len() ==> #[trigger] prev[k] == 0);
        assert forall|k: int| 0 <= k < arrays.len() && arrays[k].len() > 0 implies out[0]
            <= (#[trigger] arrays[k])[0] by {
            assert(prev[k] < arrays[k].len());
        }
        let less = arrays.update(j, arrays[j].drop_first());
        assert forall|k: int| 0 <= k < prev.len() implies 0 <= #[trigger] prev[k]
            <= less[k].len() by {}
        assert(out.drop_first().len() == 0);
        j
    } else {
        let i = rest_is_merged_upto(arrays, prev, rest);
        let less = arrays.update(i, arrays[i].drop_first());
        let now = at.update(i, at[i] - 1);
        let before = now.update(j, now[j] - 1);
        let tail = out.drop_first();
        assert(0 <= at[i] <= arrays[i].len());
        assert(before =~= prev.update(i, prev[i] - 1));
        assert(tail.drop_last() =~= rest.drop_first());
        assert(tail.last() == e);
        assert forall|k: int| 0 <= k < now.len() implies 0 <= #[trigger] now[k]
            <= less[k].len() by {
            assert(0 <= at[k] <= arrays[k].len());
        }
        assert forall|k: int| 0 <= k < less.len() && #[trigger] before[k] < less[k].len() implies {
            &&& prev[k] < arrays[k].len()
            &&& less[k][before[k]] == arrays[k][prev[k]]
        } by {
            assert(0 <= prev[k]);
        }
        assert(less[j][before[j]] == arrays[j][prev[j]]);
        assert forall|k: int| 0 <= k < less.len() && #[trigger] before[k]
            < less[k].len() implies less[j][before[j]] <= less[k][before[k]] by {
            assert(prev[k] < arrays[k].len());
        }
        assert(last_taken(less, now, j, tail.last()));
        i
    }
}

/// A merge begins with a least one of the entries that the lists begin with, and goes on as a
/// merge of the lists without that entry: so each list keeps its order, whatever it is. The
/// merge of nothing is empty.
pub proof fn merge_goes_on_as_a_merge(arrays: Seq<Seq<u32>>, out: Seq<u32>)
    requires
        is_merge(arrays, out),
    ensures
        out.len() == 0 <==> forall|i: int|
            0 <= i < arrays.len() ==> (#[trigger] arrays[i]).len() == 0,
        out.len() > 0 ==> exists|i: int|
            {
                &&& 0 <= i < arrays.len()
                &&& (#[trigger] arrays[i]).len() > 0
                &&& out[0] == arrays[i][0]
                &&& forall|j: int|
                    0 <= j < arrays.len() && arrays[j].len() > 0 ==> out[0] <= (
                    #[trigger] arrays[j])[0]
                &&& is_merge(arrays.update(i, arrays[i].drop_first()), out.drop_first())
            },
{
    if out.len() > 0 {
        let i = rest_is_merged_upto(arrays, lengths(arrays), out);
        let less = arrays.update(i, arrays[i].drop_first());
        assert(lengths(less) =~= lengths(arrays).update(i, lengths(arrays)[i] - 1));
        assert(arrays[i].len() > 0);
    } else {
        assert forall|i: int| 0 <= i < arrays.len() implies (#[trigger] arrays[i]).len() == 0 by {
            assert(lengths(arrays)[i] == 0);
        }
    }
}

} // verus!
