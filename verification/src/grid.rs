//! The visible window onto the lattice: which lattice points a grid of given
//! extents shows, and the sorted list of their pitch classes.
//!
//! A grid cell at a physical position shows the lattice point whose threes
//! and fives follow from the position and the grid's integer offsets; when
//! the third axis (the prime 7) is shown, the points one step above and below
//! it on that axis appear as smaller nodes in the same cell.

use crate::lattice::{
    spec_lattice_pitch_class, spec_letter_index, spec_letter_name, NoteNameInfo, PrimeCountVector,
};
use crate::matching::{
    get_matching_voices, matching_voices_of, pc_matches, pitch_class_matches_any_in_sorted_vec,
    sort_pitch_classes, sorted_pitch_class_seq, sorted_voice_seq, Voice,
};
use crate::tuning::{pc_add, PitchClass, TuningState};
use vstd::arithmetic::div_mod::lemma_fundamental_div_mod_converse;
use vstd::prelude::*;

verus! {

/// Whether to show the grid's third axis, for the prime 7: always, never, or
/// only while the seventh is tuned independently of the fifths.
#[derive(PartialEq, Eq, Structural, Clone, Copy, Debug)]
pub enum ShowZAxis {
    Yes,
    Auto,
    No,
}

/// A position on the grid as it appears on the screen.
#[derive(PartialEq, Eq, Structural, Copy, Clone, Debug)]
pub struct PhysicalGridIndex {
    pub x: i32,
    pub y: i32,
}

/// The lattice points shown at one physical grid position: the main point,
/// and its neighbours one step along the third axis when that axis is shown.
#[derive(PartialEq, Eq, Structural, Copy, Clone, Debug)]
pub struct PcvsAtPhysicalGridIndex {
    pub zero_z: PrimeCountVector,
    pub pos_z: Option<PrimeCountVector>,
    pub neg_z: Option<PrimeCountVector>,
}

impl PcvsAtPhysicalGridIndex {
    /// All lattice points of this cell: the main one, then the upper and the
    /// lower neighbour where present.
    pub fn all_prime_count_vectors(&self) -> (r: Vec<PrimeCountVector>)
        ensures
            r@ == cell_pcv_seq(*self),
    {
        let mut result: Vec<PrimeCountVector> = Vec::new();
        result.push(self.zero_z);
        if let Some(pcv) = self.pos_z {
            result.push(pcv);
        }
        if let Some(pcv) = self.neg_z {
            result.push(pcv);
        }
        proof {
            assert(result@ =~= cell_pcv_seq(*self));
        }
        result
    }
}

/// The lattice points of one cell as a sequence.
pub open spec fn cell_pcv_seq(c: PcvsAtPhysicalGridIndex) -> Seq<PrimeCountVector> {
    let base = seq![c.zero_z];
    let with_pos = match c.pos_z {
        Some(p) => base.push(p),
        None => base,
    };
    match c.neg_z {
        Some(q) => with_pos.push(q),
        None => with_pos,
    }
}

/// Whether the third axis is shown: as asked, or, when automatic, only while
/// the harmonic seventh differs from two perfect fourths (two fifths down) by
/// more than the matching tolerance.
pub fn resolve_show_z_axis(mode: ShowZAxis, tuning: &TuningState) -> (r: bool)
    requires
        tuning.wf(),
    ensures
        r == match mode {
            ShowZAxis::Yes => true,
            ShowZAxis::No => false,
            ShowZAxis::Auto => crate::tuning::pc_dist(
                crate::tuning::pc_mul(tuning.three@, -2),
                tuning.seven@,
            ) > tuning.tolerance@,
        },
{
    match mode {
        ShowZAxis::Yes => true,
        ShowZAxis::No => false,
        ShowZAxis::Auto => {
            let dependent_seven = tuning.three.multiply(-2).distance_to(tuning.seven).le(
                &tuning.tolerance,
            );
            !dependent_seven
        },
    }
}

/// The largest grid offset magnitude the grid arithmetic accepts; far beyond
/// what any real grid uses.
pub const MAX_GRID_OFFSET_MAGNITUDE: i32 = 1_000_000;

/// The cell that position `k` of the enumeration stands for, walking columns
/// left to right and, within a column, rows top to bottom.
pub open spec fn spec_grid_entry(
    k: int,
    width: int,
    height: int,
    extra_top: bool,
    x_floor: int,
    y_floor: int,
    z: int,
    show_z: bool,
) -> (PhysicalGridIndex, PcvsAtPhysicalGridIndex) {
    let rows = height + if extra_top {
        1int
    } else {
        0int
    };
    let px = k / rows;
    let py = k % rows - if extra_top {
        1int
    } else {
        0int
    };
    let threes = height / 2 - py + y_floor;
    let fives = px - (width - 1) / 2 + x_floor;
    (
        PhysicalGridIndex { x: px as i32, y: py as i32 },
        PcvsAtPhysicalGridIndex {
            zero_z: PrimeCountVector {
                threes: threes as i32,
                fives: fives as i32,
                sevens: z as i32,
            },
            pos_z: if show_z {
                Some(
                    PrimeCountVector {
                        threes: threes as i32,
                        fives: fives as i32,
                        sevens: (z + 1) as i32,
                    },
                )
            } else {
                None
            },
            neg_z: if show_z {
                Some(
                    PrimeCountVector {
                        threes: threes as i32,
                        fives: fives as i32,
                        sevens: (z - 1) as i32,
                    },
                )
            } else {
                None
            },
        },
    )
}

/// The whole enumeration of a grid's cells, as a sequence.
pub open spec fn grid_entries_seq(
    width: int,
    height: int,
    extra_right: bool,
    extra_top: bool,
    x_floor: int,
    y_floor: int,
    z: int,
    show_z: bool,
) -> Seq<(PhysicalGridIndex, PcvsAtPhysicalGridIndex)> {
    let cols = width + if extra_right {
        1int
    } else {
        0int
    };
    let rows = height + if extra_top {
        1int
    } else {
        0int
    };
    Seq::new(
        (cols * rows) as nat,
        |k: int| spec_grid_entry(k, width, height, extra_top, x_floor, y_floor, z, show_z),
    )
}

/// Enumerates the lattice points shown by a grid of the given extents. The
/// extra column and row cover cells that are partly scrolled into view.
pub fn grid_prime_count_vectors(
    width: u8,
    height: u8,
    extra_right: bool,
    extra_top: bool,
    x_floor: i32,
    y_floor: i32,
    z: i32,
    show_z: bool,
) -> (r: Vec<(PhysicalGridIndex, PcvsAtPhysicalGridIndex)>)
    requires
        width >= 1,
        height >= 1,
        -MAX_GRID_OFFSET_MAGNITUDE <= x_floor <= MAX_GRID_OFFSET_MAGNITUDE,
        -MAX_GRID_OFFSET_MAGNITUDE <= y_floor <= MAX_GRID_OFFSET_MAGNITUDE,
        -MAX_GRID_OFFSET_MAGNITUDE <= z <= MAX_GRID_OFFSET_MAGNITUDE,
    ensures
        r@.len() == (width as int + if extra_right {
            1int
        } else {
            0int
        }) * (height as int + if extra_top {
            1int
        } else {
            0int
        }),
        forall|k: int|
            0 <= k < r@.len() ==> #[trigger] r@[k] == spec_grid_entry(
                k,
                width as int,
                height as int,
                extra_top,
                x_floor as int,
                y_floor as int,
                z as int,
                show_z,
            ),
{
    let cols: u16 = width as u16 + if extra_right {
        1
    } else {
        0
    };
    let rows: u16 = height as u16 + if extra_top {
        1
    } else {
        0
    };
    let top: i32 = if extra_top {
        1
    } else {
        0
    };
    let mut r: Vec<(PhysicalGridIndex, PcvsAtPhysicalGridIndex)> = Vec::new();
    let mut px: u16 = 0;
    while px < cols
        invariant
            1 <= rows <= 256,
            1 <= cols <= 256,
            rows == height as int + if extra_top {
                1int
            } else {
                0int
            },
            cols == width as int + if extra_right {
                1int
            } else {
                0int
            },
            top == if extra_top {
                1int
            } else {
                0int
            },
            width >= 1,
            height >= 1,
            -MAX_GRID_OFFSET_MAGNITUDE <= x_floor <= MAX_GRID_OFFSET_MAGNITUDE,
            -MAX_GRID_OFFSET_MAGNITUDE <= y_floor <= MAX_GRID_OFFSET_MAGNITUDE,
            -MAX_GRID_OFFSET_MAGNITUDE <= z <= MAX_GRID_OFFSET_MAGNITUDE,
            0 <= px <= cols,
            r@.len() == px as int * rows as int,
            forall|k: int|
                0 <= k < r@.len() ==> #[trigger] r@[k] == spec_grid_entry(
                    k,
                    width as int,
                    height as int,
                    extra_top,
                    x_floor as int,
                    y_floor as int,
                    z as int,
                    show_z,
                ),
        decreases cols - px,
    {
        let mut row_idx: u16 = 0;
        while row_idx < rows
            invariant
                1 <= rows <= 256,
                1 <= cols <= 256,
                rows == height as int + if extra_top {
                    1int
                } else {
                    0int
                },
                cols == width as int + if extra_right {
                    1int
                } else {
                    0int
                },
                top == if extra_top {
                    1int
                } else {
                    0int
                },
                width >= 1,
                height >= 1,
                -MAX_GRID_OFFSET_MAGNITUDE <= x_floor <= MAX_GRID_OFFSET_MAGNITUDE,
                -MAX_GRID_OFFSET_MAGNITUDE <= y_floor <= MAX_GRID_OFFSET_MAGNITUDE,
                -MAX_GRID_OFFSET_MAGNITUDE <= z <= MAX_GRID_OFFSET_MAGNITUDE,
                0 <= px < cols,
                0 <= row_idx <= rows,
                r@.len() == px as int * rows as int + row_idx as int,
                forall|k: int|
                    0 <= k < r@.len() ==> #[trigger] r@[k] == spec_grid_entry(
                        k,
                        width as int,
                        height as int,
                        extra_top,
                        x_floor as int,
                        y_floor as int,
                        z as int,
                        show_z,
                    ),
            decreases rows - row_idx,
        {
            let py: i32 = row_idx as i32 - top;
            let threes: i32 = height as i32 / 2 - py + y_floor;
            let fives: i32 = px as i32 - (width as i32 - 1) / 2 + x_floor;
            let cell = PcvsAtPhysicalGridIndex {
                zero_z: PrimeCountVector { threes, fives, sevens: z },
                pos_z: if show_z {
                    Some(PrimeCountVector { threes, fives, sevens: z + 1 })
                } else {
                    None
                },
                neg_z: if show_z {
                    Some(PrimeCountVector { threes, fives, sevens: z - 1 })
                } else {
                    None
                },
            };
            r.push((PhysicalGridIndex { x: px as i32, y: py }, cell));
            proof {
                let k = px as int * rows as int + row_idx as int;
                lemma_fundamental_div_mod_converse(k, rows as int, px as int, row_idx as int);
            }
            row_idx = row_idx + 1;
        }
        px = px + 1;
        proof {
            assert(px as int * rows as int == (px as int - 1) * rows as int + rows as int)
                by (nonlinear_arith);
        }
    }
    proof {
        assert(r@.len() == cols as int * rows as int);
    }
    r
}

/// The pitch classes of one cell under the given tuning, as a sequence.
pub open spec fn cell_pc_seq(c: PcvsAtPhysicalGridIndex, t3: int, t5: int, t7: int) -> Seq<
    PitchClass,
> {
    cell_pcv_seq(c).map_values(
        |p: PrimeCountVector|
            PitchClass(
                spec_lattice_pitch_class(
                    p.threes as int,
                    p.fives as int,
                    p.sevens as int,
                    t3,
                    t5,
                    t7,
                ) as u32,
            ),
    )
}

/// The pitch classes of all cells of an enumeration, in enumeration order.
pub open spec fn grid_pc_seq(
    entries: Seq<(PhysicalGridIndex, PcvsAtPhysicalGridIndex)>,
    t3: int,
    t5: int,
    t7: int,
) -> Seq<PitchClass>
    decreases entries.len(),
{
    if entries.len() == 0 {
        Seq::empty()
    } else {
        grid_pc_seq(entries.drop_last(), t3, t5, t7) + cell_pc_seq(entries.last().1, t3, t5, t7)
    }
}

/// The pitch classes of every lattice point the grid shows, sorted ascending:
/// the list the voice matcher searches when the display asks how many voices
/// match some shown note.
pub fn get_sorted_grid_pitch_classes(
    width: u8,
    height: u8,
    extra_right: bool,
    extra_top: bool,
    x_floor: i32,
    y_floor: i32,
    z: i32,
    show_z_mode: ShowZAxis,
    tuning: &TuningState,
) -> (r: Vec<PitchClass>)
    requires
        width >= 1,
        height >= 1,
        -MAX_GRID_OFFSET_MAGNITUDE <= x_floor <= MAX_GRID_OFFSET_MAGNITUDE,
        -MAX_GRID_OFFSET_MAGNITUDE <= y_floor <= MAX_GRID_OFFSET_MAGNITUDE,
        -MAX_GRID_OFFSET_MAGNITUDE <= z <= MAX_GRID_OFFSET_MAGNITUDE,
        tuning.wf(),
    ensures
        sorted_pitch_class_seq(r@),
        r@.to_multiset() == grid_pc_seq(
            grid_entries_seq(
                width as int,
                height as int,
                extra_right,
                extra_top,
                x_floor as int,
                y_floor as int,
                z as int,
                resolve_show_z_spec(show_z_mode, *tuning),
            ),
            tuning.three@,
            tuning.five@,
            tuning.seven@,
        ).to_multiset(),
{
    let show_z = resolve_show_z_axis(show_z_mode, tuning);
    let entries = grid_prime_count_vectors(
        width,
        height,
        extra_right,
        extra_top,
        x_floor,
        y_floor,
        z,
        show_z,
    );
    let ghost t3 = tuning.three@;
    let ghost t5 = tuning.five@;
    let ghost t7 = tuning.seven@;
    let mut raw: Vec<PitchClass> = Vec::new();
    let mut i: usize = 0;
    while i < entries.len()
        invariant
            0 <= i <= entries@.len(),
            tuning.wf(),
            t3 == tuning.three@ && t5 == tuning.five@ && t7 == tuning.seven@,
            raw@ == grid_pc_seq(entries@.take(i as int), t3, t5, t7),
            forall|k: int| 0 <= k < raw@.len() ==> (#[trigger] raw@[k]).wf(),
        decreases entries@.len() - i,
    {
        let cell = entries[i].1;
        let pcvs = cell.all_prime_count_vectors();
        let mut j: usize = 0;
        while j < pcvs.len()
            invariant
                0 <= j <= pcvs@.len(),
                tuning.wf(),
                t3 == tuning.three@ && t5 == tuning.five@ && t7 == tuning.seven@,
                0 <= i < entries@.len(),
                pcvs@ == cell_pcv_seq(cell),
                cell == entries@[i as int].1,
                raw@ == grid_pc_seq(entries@.take(i as int), t3, t5, t7) + cell_pc_seq(
                    cell,
                    t3,
                    t5,
                    t7,
                ).take(j as int),
                forall|k: int| 0 <= k < raw@.len() ==> (#[trigger] raw@[k]).wf(),
            decreases pcvs@.len() - j,
        {
            let pc = pcvs[j].pitch_class(tuning.three, tuning.five, tuning.seven);
            raw.push(pc);
            proof {
                assert(cell_pc_seq(cell, t3, t5, t7).take(j as int + 1) =~= cell_pc_seq(
                    cell,
                    t3,
                    t5,
                    t7,
                ).take(j as int).push(cell_pc_seq(cell, t3, t5, t7)[j as int]));
            }
            j = j + 1;
        }
        proof {
            assert(entries@.take(i as int + 1).drop_last() =~= entries@.take(i as int));
            assert(entries@.take(i as int + 1).last() == entries@[i as int]);
            assert(cell_pc_seq(cell, t3, t5, t7).take(cell_pc_seq(cell, t3, t5, t7).len() as int)
                =~= cell_pc_seq(cell, t3, t5, t7));
        }
        i = i + 1;
    }
    proof {
        assert(entries@.take(entries@.len() as int) =~= entries@);
    }
    let r = sort_pitch_classes(&raw);
    proof {
        assert(entries@ =~= grid_entries_seq(
            width as int,
            height as int,
            extra_right,
            extra_top,
            x_floor as int,
            y_floor as int,
            z as int,
            show_z,
        ));
    }
    r
}

/// What `resolve_show_z_axis` decides, as a spec-level value.
pub open spec fn resolve_show_z_spec(mode: ShowZAxis, tuning: TuningState) -> bool {
    match mode {
        ShowZAxis::Yes => true,
        ShowZAxis::No => false,
        ShowZAxis::Auto => crate::tuning::pc_dist(
            crate::tuning::pc_mul(tuning.three@, -2),
            tuning.seven@,
        ) > tuning.tolerance@,
    }
}

/// What the display needs to know about one lattice node: its pitch class
/// under the current tuning, the voices sounding at it, whether a recent
/// voice keeps it highlighted, and the parts of its name.
pub struct NodeInfo {
    pub pitch_class: PitchClass,
    pub matching_voices: Vec<Voice>,
    pub highlighted: bool,
    pub note_name_info: NoteNameInfo,
}

/// Gathers the display information for one lattice node: the node's pitch
/// class is the lattice map of its coordinates plus the reference offset; the
/// matching voices are exactly those within the tolerance of that pitch
/// class; and the node is highlighted when a recently sounding pitch class
/// lies within the tolerance.
pub fn node_info(
    primes: &PrimeCountVector,
    tuning: &TuningState,
    sorted_voices: &Vec<Voice>,
    highlighted_pitch_classes: &Vec<PitchClass>,
) -> (r: NodeInfo)
    requires
        tuning.wf(),
        sorted_voice_seq(sorted_voices@),
        sorted_pitch_class_seq(highlighted_pitch_classes@),
    ensures
        r.pitch_class@ == pc_add(
            spec_lattice_pitch_class(
                primes.threes as int,
                primes.fives as int,
                primes.sevens as int,
                tuning.three@,
                tuning.five@,
                tuning.seven@,
            ),
            tuning.c_offset@,
        ),
        r.pitch_class.wf(),
        r.matching_voices@.to_multiset() == matching_voices_of(
            sorted_voices@,
            r.pitch_class@,
            tuning.tolerance@,
        ).to_multiset(),
        r.highlighted == exists|i: int|
            0 <= i < highlighted_pitch_classes@.len() && pc_matches(
                #[trigger] highlighted_pitch_classes@[i]@,
                r.pitch_class@,
                tuning.tolerance@,
            ),
        r.note_name_info.letter_name == spec_letter_name(
            spec_letter_index(primes.threes as int, primes.fives as int, primes.sevens as int),
        ),
        r.note_name_info.sharps_or_flats == spec_letter_index(
            primes.threes as int,
            primes.fives as int,
            primes.sevens as int,
        ) / 7,
        r.note_name_info.syntonic_commas == -(primes.fives as int),
{
    let pitch_class = primes.pitch_class(tuning.three, tuning.five, tuning.seven).add(
        tuning.c_offset,
    );
    let matching_voices = get_matching_voices(pitch_class, sorted_voices, tuning.tolerance);
    let highlighted = pitch_class_matches_any_in_sorted_vec(
        pitch_class,
        highlighted_pitch_classes,
        tuning.tolerance,
    );
    let note_name_info = primes.note_name_info();
    NodeInfo { pitch_class, matching_voices, highlighted, note_name_info }
}

impl NodeInfo {
    /// Whether a node off the main plane of the lattice is drawn at all: only
    /// while some voice matches it or a recent voice keeps it highlighted.
    pub fn nonzero_z_node_is_shown(&self) -> (r: bool)
        ensures
            r == (self.matching_voices@.len() != 0 || self.highlighted),
    {
        self.matching_voices.len() != 0 || self.highlighted
    }
}

/// The highest channel that sounds on the grid: channels above it are the
/// outline-only channel and the reserved, ignored channel.
pub fn channel_is_highlightable(channel: u8) -> (r: bool)
    ensures
        r == (channel <= 13),
{
    channel <= 13
}

/// Whether a channel's voices are drawn as an outline only.
pub fn channel_is_outline_only(channel: u8) -> (r: bool)
    ensures
        r == (channel == 14),
{
    channel == 14
}

/// How much highlight time an entry has left after a tick: the elapsed time
/// is deducted, and what remains is capped at the current highlight duration,
/// so that shortening the duration cannot leave long-lived highlights behind.
pub fn remaining_highlight_micros(time_left: u64, elapsed: u64, duration: u64) -> (r: u64)
    ensures
        r == if elapsed > time_left {
            0u64
        } else if time_left - elapsed < duration {
            (time_left - elapsed) as u64
        } else {
            duration
        },
{
    if elapsed > time_left {
        0
    } else if time_left - elapsed < duration {
        time_left - elapsed
    } else {
        duration
    }
}

} // verus!
