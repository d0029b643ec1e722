//! Reports that colour a keyboard key by key.

use vstd::prelude::*;

verus! {

/// Keys that a colour is sent for: ids `0x00` to `0xe8`.
pub const KEY_COUNT: usize = 0xe9;

/// Keys in one frame.
pub const KEYS_PER_FRAME: usize = 14;

/// Frames that hold every key.
pub const FRAME_COUNT: usize = 17;

/// A colour.
#[derive(Debug, Clone, Copy, PartialEq, Eq, Structural)]
pub struct Rgb {
    /// Red.
    pub red: u8,
    /// Green.
    pub green: u8,
    /// Blue.
    pub blue: u8,
}

/// Byte `i` of the entry that gives `key` the colour `colour`.
pub open spec fn key_entry_byte(key: int, colour: Rgb, i: int) -> u8 {
    if key >= KEY_COUNT {
        0
    } else if i == 0 {
        key as u8
    } else if i == 1 {
        colour.red
    } else if i == 2 {
        colour.green
    } else {
        colour.blue
    }
}

/// Byte `i` of the header of a key frame.
pub open spec fn frame_header_byte(device_index: u8, feature_index: u8, i: int) -> u8 {
    if i == 0 {
        0x12
    } else if i == 1 {
        device_index
    } else if i == 2 {
        feature_index
    } else if i == 3 {
        0x3a
    } else if i == 5 {
        0x01
    } else if i == 7 {
        0x0e
    } else {
        0
    }
}

/// Key frame `frame`: a very long report with the colours of fourteen keys; what
/// is left of the last one stays zero.
pub open spec fn key_frame(device_index: u8, feature_index: u8, colour: Rgb, frame: int) -> Seq<u8> {
    Seq::new(
        64,
        |i: int|
            if i < 8 {
                frame_header_byte(device_index, feature_index, i)
            } else {
                key_entry_byte(14 * frame + (i - 8) / 4, colour, (i - 8) % 4)
            },
    )
}

/// The long report that makes the device show the frames.
pub open spec fn commit_report(device_index: u8, feature_index: u8) -> Seq<u8> {
    seq![0x11u8, device_index, feature_index, 0x5a] + Seq::new(16, |i: int| 0u8)
}

fn frame_report(device_index: u8, feature_index: u8, colour: Rgb, frame: usize) -> (report: Vec<u8>)
    requires
        frame < FRAME_COUNT,
    ensures
        report@ == key_frame(device_index, feature_index, colour, frame as int),
{
    let mut report: Vec<u8> = Vec::new();
    report.push(0x12);
    report.push(device_index);
    report.push(feature_index);
    report.push(0x3a);
    report.push(0);
    report.push(0x01);
    report.push(0);
    report.push(0x0e);
    let ghost all = key_frame(device_index, feature_index, colour, frame as int);
    assert(report@ =~= all.take(8));
    let mut slot: usize = 0;
    while slot < KEYS_PER_FRAME
        invariant
            slot <= KEYS_PER_FRAME,
            frame < FRAME_COUNT,
            all == key_frame(device_index, feature_index, colour, frame as int),
            report@ == all.take(8 + 4 * slot),
        decreases KEYS_PER_FRAME - slot,
    {
        let key: usize = KEYS_PER_FRAME * frame + slot;
        if key < KEY_COUNT {
            report.push(key as u8);
            report.push(colour.red);
            report.push(colour.green);
            report.push(colour.blue);
        } else {
            report.push(0);
            report.push(0);
            report.push(0);
            report.push(0);
        }
        assert(report@ =~= all.take(8 + 4 * (slot + 1)));
        slot += 1;
    }
    assert(all.take(64) =~= all);
    report
}

/// The reports that give every key the colour `red`, `green`, `blue`: very long
/// frames, then one long commit.
pub fn per_key_reports(
    device_index: u8,
    feature_index: u8,
    red: u8,
    green: u8,
    blue: u8,
) -> (reports: Vec<Vec<u8>>)
    ensures
        reports.len() == FRAME_COUNT + 1,
        forall|frame: int|
            0 <= frame < FRAME_COUNT ==> (#[trigger] reports[frame])@ == key_frame(
                device_index,
                feature_index,
                (Rgb { red, green, blue }),
                frame,
            ),
        reports[FRAME_COUNT as int]@ == commit_report(device_index, feature_index),
{
    let colour = Rgb { red, green, blue };
    let mut reports: Vec<Vec<u8>> = Vec::new();
    let mut frame: usize = 0;
    while frame < FRAME_COUNT
        invariant
            frame <= FRAME_COUNT,
            reports.len() == frame,
            forall|j: int|
                0 <= j < frame ==> (#[trigger] reports[j])@ == key_frame(
                    device_index,
                    feature_index,
                    colour,
                    j,
                ),
        decreases FRAME_COUNT - frame,
    {
        reports.push(frame_report(device_index, feature_index, colour, frame));
        frame += 1;
    }
    let mut commit: Vec<u8> = Vec::new();
    commit.push(0x11);
    commit.push(device_index);
    commit.push(feature_index);
    commit.push(0x5a);
    while commit.len() < 20
        invariant
            4 <= commit.len() <= 20,
            commit@ == commit_report(device_index, feature_index).take(commit.len() as int),
        decreases 20 - commit.len(),
    {
        commit.push(0);
        assert(commit@ =~= commit_report(device_index, feature_index).take(commit.len() as int));
    }
    assert(commit@ =~= commit_report(device_index, feature_index));
    reports.push(commit);
    reports
}

/// Every key gets the colour: its entry stands in the frame and the slot that
/// its id gives.
pub proof fn every_key_is_coloured(device_index: u8, feature_index: u8, colour: Rgb, key: int)
    requires
        0 <= key < KEY_COUNT,
    ensures
        0 <= key / 14 < FRAME_COUNT,
        ({
            let start = 8 + 4 * (key % 14);
            let frame = key_frame(device_index, feature_index, colour, key / 14);
            frame.subrange(start, start + 4) == seq![
                key as u8,
                colour.red,
                colour.green,
                colour.blue,
            ]
        }),
{
    let start = 8 + 4 * (key % 14);
    let frame = key_frame(device_index, feature_index, colour, key / 14);
    assert(frame.subrange(start, start + 4) =~= seq![
        key as u8,
        colour.red,
        colour.green,
        colour.blue,
    ]);
}

/// Whether bit `position` of a presence bitfield is set, counted from the least
/// significant bit of the first byte.
pub open spec fn zone_bit(bitfield: Seq<u8>, position: int) -> bool {
    (bitfield[position / 8] >> ((position % 8) as u8)) & 1 == 1
}

/// Whether bit `position` of the page that starts at `base` says that a zone is
/// present. The ids `0` and `255` end lists and are no zones; what comes after
/// them is padding.
pub open spec fn zone_present(base: u16, bitfield: Seq<u8>, position: int) -> bool {
    zone_bit(bitfield, position) && 0 < base + position < 255
}

/// The zones that the first `bits` bits of a page say are present, in ascending
/// order.
pub open spec fn present_zones(base: u16, bitfield: Seq<u8>, bits: int) -> Seq<u8>
    decreases bits,
{
    if bits <= 0 {
        Seq::empty()
    } else if zone_present(base, bitfield, bits - 1) {
        present_zones(base, bitfield, bits - 1).push((base + bits - 1) as u8)
    } else {
        present_zones(base, bitfield, bits - 1)
    }
}

/// Appends the zones that one page of presence bits reports. The page starts at
/// zone `base`.
pub fn collect_present_zones(base: u16, bitfield: &[u8; 14], zones: &mut Vec<u8>)
    ensures
        final(zones)@ == old(zones)@ + present_zones(base, bitfield@, 112),
{
    let ghost before = zones@;
    let mut position: usize = 0;
    assert(zones@ =~= before + present_zones(base, bitfield@, 0));
    while position < 112
        invariant
            position <= 112,
            zones@ == before + present_zones(base, bitfield@, position as int),
        decreases 112 - position,
    {
        let byte: u8 = bitfield[position / 8];
        let bit: u8 = (position % 8) as u8;
        let id: u32 = base as u32 + position as u32;
        if (byte >> bit) & 1 == 1 && 0 < id && id < 255 {
            zones.push(id as u8);
        }
        assert(zones@ =~= before + present_zones(base, bitfield@, position + 1));
        position += 1;
    }
}

/// A page yields exactly the zones whose bit is set, and never an id that ends
/// lists.
pub proof fn present_zones_are_those_with_a_bit(base: u16, bitfield: Seq<u8>, bits: int, id: u8)
    ensures
        present_zones(base, bitfield, bits).contains(id) <==> (0 <= id - base < bits
            && zone_present(base, bitfield, id - base)),
        present_zones(base, bitfield, bits).contains(id) ==> id != 0 && id != 255,
    decreases bits,
{
    if bits > 0 {
        let fewer = present_zones(base, bitfield, bits - 1);
        let all = present_zones(base, bitfield, bits);
        present_zones_are_those_with_a_bit(base, bitfield, bits - 1, id);
        if zone_present(base, bitfield, bits - 1) {
            let last = (base + bits - 1) as u8;
            assert(all == fewer.push(last));
            assert(all[fewer.len() as int] == last);
            if fewer.contains(id) {
                let j = choose|j: int| 0 <= j < fewer.len() && fewer[j] == id;
                assert(all[j] == id);
            }
            if all.contains(id) && id != last {
                let j = choose|j: int| 0 <= j < all.len() && all[j] == id;
                assert(fewer[j] == id);
            }
        }
    }
}

/// Every key frame is a very long report to the device and the feature it was made
/// for, with fourteen keys in it; slots behind the last key are zero. The commit is a
/// long report that carries nothing.
pub proof fn frames_and_commit_are_addressed(
    device_index: u8,
    feature_index: u8,
    colour: Rgb,
    frame: int,
    i: int,
)
    ensures
        ({
            let report = key_frame(device_index, feature_index, colour, frame);
            &&& report.len() == 64
            &&& report.take(8) == seq![
                0x12u8,
                device_index,
                feature_index,
                0x3a,
                0x00,
                0x01,
                0x00,
                0x0e,
            ]
            &&& 0 <= frame && 8 <= i < 64 && 14 * frame + (i - 8) / 4 > 0xe8 ==> report[i] == 0
        }),
        ({
            let report = commit_report(device_index, feature_index);
            &&& report.len() == 20
            &&& report.take(4) == seq![0x11u8, device_index, feature_index, 0x5a]
            &&& 4 <= i < 20 ==> report[i] == 0
        }),
{
    let report = key_frame(device_index, feature_index, colour, frame);
    assert(report.take(8) =~= seq![
        0x12u8,
        device_index,
        feature_index,
        0x3a,
        0x00,
        0x01,
        0x00,
        0x0e,
    ]);
    assert(commit_report(device_index, feature_index).take(4) =~= seq![
        0x11u8,
        device_index,
        feature_index,
        0x5a,
    ]);
}

/// Zone `id` is reported by the bit of its page that its distance from the page's base
/// gives, counted from the least significant bit of each byte, and the zones of a page
/// come in ascending order. Ids zero and 255, and what lies beyond, are no zones.
pub proof fn zones_are_read_bit_by_bit(base: u16, bitfield: Seq<u8>, id: u8, a: int, b: int)
    requires
        bitfield.len() == 14,
    ensures
        present_zones(base, bitfield, 112).contains(id) <==> {
            let position = id - base;
            &&& 0 < id < 255
            &&& 0 <= position < 112
            &&& bitfield[position / 8] & (1u8 << ((position % 8) as u8)) != 0
        },
        0 <= a < b < present_zones(base, bitfield, 112).len() ==> present_zones(
            base,
            bitfield,
            112,
        )[a] < present_zones(base, bitfield, 112)[b],
{
    present_zones_are_those_with_a_bit(base, bitfield, 112, id);
    let position = id - base;
    if 0 <= position < 112 {
        let byte = bitfield[position / 8];
        let bit = (position % 8) as u8;
        assert(((byte >> bit) & 1 == 1) == (byte & (1u8 << bit) != 0)) by (bit_vector)
            requires
                bit < 8,
        ;
    }
    if 0 <= a < b < present_zones(base, bitfield, 112).len() {
        lemma_zones_ascend(base, bitfield, 112, a, b);
    }
}

proof fn lemma_zones_ascend(base: u16, bitfield: Seq<u8>, bits: int, a: int, b: int)
    requires
        0 <= a < b < present_zones(base, bitfield, bits).len(),
    ensures
        present_zones(base, bitfield, bits)[a] < present_zones(base, bitfield, bits)[b],
    decreases bits,
{
    if bits > 0 {
        let fewer = present_zones(base, bitfield, bits - 1);
        if b < fewer.len() {
            lemma_zones_ascend(base, bitfield, bits - 1, a, b);
        } else {
            let id = fewer[a];
            assert(fewer.contains(id));
            present_zones_are_those_with_a_bit(base, bitfield, bits - 1, id);
        }
    }
}

/// Every key id up to `0xe8` has its slot in one of the seventeen frames, and no frame
/// is without a key.
pub proof fn frames_hold_every_key(key: int, frame: int)
    ensures
        0 <= key < KEY_COUNT <==> 0 <= key <= 0xe8,
        0 <= key <= 0xe8 ==> 0 <= key / 14 < FRAME_COUNT,
        0 <= frame < FRAME_COUNT ==> 14 * frame <= 0xe8,
        KEYS_PER_FRAME == 14,
{
}

} // verus!
