//! The flat result buffers that the solver front end exchanges: the buffer
//! of a node's results and the buffer of chance reports (one entry per card
//! for each of nine statistics, then the strategy summary). Both are laid
//! out and read back here for any element type.

use vstd::prelude::*;
use crate::text::str_equal;

verus! {

/// The entries `start .. start + count` of `buffer`, reading `fill` past its end.
pub open spec fn padded<T>(buffer: Seq<T>, start: int, count: int, fill: T) -> Seq<T> {
    Seq::new(count as nat, |i: int| if start + i < buffer.len() { buffer[start + i] } else { fill })
}

/// Where the per-player sections of a node's result buffer end: a header of
/// three entries, the weights of both ranges, then either the weights again
/// (when a range is empty) or the normalized weights, equities, EVs and EV
/// ratios of both ranges.
pub open spec fn sections_end(empty_flag: nat, len_oop: nat, len_ip: nat) -> int {
    3 + (if empty_flag > 0 { 1int } else { 5int }) * (len_oop + len_ip)
}

/// The index of a player label: `"oop"` is 0, `"ip"` is 1.
pub open spec fn player_index_of(player: Seq<char>) -> Option<nat> {
    if player == seq!['o', 'o', 'p'] {
        Some(0)
    } else if player == seq!['i', 'p'] {
        Some(1)
    } else {
        None
    }
}

/// The results of a node, read from its result buffer.
#[derive(Clone)]
pub struct SpecificResultData<T> {
    pub current_player: String,
    pub num_actions: usize,
    pub is_empty: bool,
    pub eqr_base: [i32; 2],
    pub weights: Vec<Vec<T>>,
    pub normalizer: Vec<Vec<T>>,
    pub equity: Vec<Vec<T>>,
    pub ev: Vec<Vec<T>>,
    pub eqr: Vec<Vec<T>>,
    pub strategy: Vec<T>,
    pub action_ev: Vec<T>,
    pub oop_cards: Vec<(u8, u8)>,
    pub ip_cards: Vec<(u8, u8)>,
}

/// The statistics of every card that may come at a chance node, read from
/// its chance-report buffer.
#[derive(Clone)]
pub struct SpecificChanceReportData<T> {
    pub current_player: String,
    pub num_actions: usize,
    pub status: Vec<T>,
    pub combos: Vec<Vec<T>>,
    pub equity: Vec<Vec<T>>,
    pub ev: Vec<Vec<T>>,
    pub eqr: Vec<Vec<T>>,
    pub strategy: Vec<T>,
}

/// `count` entries of `buffer` from `start`.
fn copy_segment<T: Copy>(buffer: &[T], start: usize, count: usize) -> (out: Vec<T>)
    requires
        start + count <= buffer@.len(),
    ensures
        out@ == buffer@.subrange(start as int, start + count),
{
    let blen = buffer.len();
    let mut out: Vec<T> = Vec::new();
    let mut i: usize = 0;
    while i < count
        invariant
            blen == buffer@.len(),
            start + count <= buffer@.len(),
            i <= count,
            out@ == buffer@.subrange(start as int, start + i),
        decreases count - i,
    {
        out.push(buffer[start + i]);
        assert(buffer@.subrange(start as int, start + i + 1) == buffer@.subrange(
            start as int,
            start + i,
        ).push(buffer@[start + i]));
        i += 1;
    }
    out
}

/// `count` entries of `buffer` from `start`, with `fill` past its end.
fn copy_padded<T: Copy>(buffer: &[T], start: usize, count: usize, fill: T) -> (out: Vec<T>)
    requires
        start + count <= usize::MAX,
    ensures
        out@ == padded(buffer@, start as int, count as int, fill),
{
    let mut out: Vec<T> = Vec::new();
    let mut i: usize = 0;
    while i < count
        invariant
            start + count <= usize::MAX,
            i <= count,
            out@ =~= padded(buffer@, start as int, i as int, fill),
        decreases count - i,
    {
        if start + i < buffer.len() {
            out.push(buffer[start + i]);
        } else {
            out.push(fill);
        }
        i += 1;
    }
    out
}

/// `res` holds what `parse_specific_result` reads from `buffer` (see there).
pub open spec fn result_read<T>(
    res: SpecificResultData<T>,
    buffer: Seq<T>,
    eqr_base: [i32; 2],
    empty_flag: usize,
    len_oop: usize,
    len_ip: usize,
    current_player: Seq<char>,
    num_actions: usize,
    fill: T,
    oop_cards: Vec<(u8, u8)>,
    ip_cards: Vec<(u8, u8)>,
) -> bool {
    let b = buffer;
    let n = (len_oop + len_ip) as int;
    let w0 = b.subrange(3, 3 + len_oop);
    let w1 = b.subrange(3 + len_oop, 3 + n);
    let end = sections_end(empty_flag as nat, len_oop as nat, len_ip as nat);
    &&& res.current_player@ == current_player
    &&& res.num_actions == num_actions
    &&& res.is_empty == (empty_flag == 3)
    &&& res.eqr_base == eqr_base
    &&& res.oop_cards == oop_cards
    &&& res.ip_cards == ip_cards
    &&& res.weights@.len() == 2 && res.normalizer@.len() == 2
    &&& res.equity@.len() == 2 && res.ev@.len() == 2 && res.eqr@.len() == 2
    &&& res.weights@[0]@ == w0 && res.weights@[1]@ == w1
    &&& if empty_flag > 0 {
        &&& res.normalizer@[0]@ == w0 && res.normalizer@[1]@ == w1
        &&& res.equity@[0]@.len() == 0 && res.equity@[1]@.len() == 0
        &&& res.ev@[0]@.len() == 0 && res.ev@[1]@.len() == 0
        &&& res.eqr@[0]@.len() == 0 && res.eqr@[1]@.len() == 0
    } else {
        &&& res.normalizer@[0]@ == b.subrange(3 + n, 3 + n + len_oop)
        &&& res.normalizer@[1]@ == b.subrange(3 + n + len_oop, 3 + 2 * n)
        &&& res.equity@[0]@ == b.subrange(3 + 2 * n, 3 + 2 * n + len_oop)
        &&& res.equity@[1]@ == b.subrange(3 + 2 * n + len_oop, 3 + 3 * n)
        &&& res.ev@[0]@ == b.subrange(3 + 3 * n, 3 + 3 * n + len_oop)
        &&& res.ev@[1]@ == b.subrange(3 + 3 * n + len_oop, 3 + 4 * n)
        &&& res.eqr@[0]@ == b.subrange(3 + 4 * n, 3 + 4 * n + len_oop)
        &&& res.eqr@[1]@ == b.subrange(3 + 4 * n + len_oop, 3 + 5 * n)
    }
    &&& match player_index_of(current_player) {
        Some(p) => {
            let count = num_actions * (if p == 0 { len_oop } else { len_ip });
            &&& res.strategy@ == padded(b, end, count, fill)
            &&& res.action_ev@ == if empty_flag == 3 {
                Seq::<T>::empty()
            } else {
                padded(b, end + count, count, fill)
            }
        },
        None => res.strategy@.len() == 0 && res.action_ev@.len() == 0,
    }
}

/// Reads the results of a node from its result buffer.
///
/// `empty_flag` is the header's third entry read as an integer (bit 0: the
/// OOP range is empty, bit 1: the IP range is empty), `eqr_base` its first
/// two entries read as integers, and `len_oop` / `len_ip` the sizes of the
/// two ranges. The strategy (and, unless both ranges are empty, the EV of
/// each action) of `current_player` follow the per-player sections; entries
/// past the end of the buffer read as `fill`.
pub fn parse_specific_result<T: Copy>(
    buffer: &[T],
    eqr_base: [i32; 2],
    empty_flag: usize,
    len_oop: usize,
    len_ip: usize,
    current_player: &str,
    num_actions: usize,
    fill: T,
    oop_cards: Vec<(u8, u8)>,
    ip_cards: Vec<(u8, u8)>,
) -> (res: SpecificResultData<T>)
    requires
sections_end(empty_flag as nat, len_oop as nat, len_ip as nat) <= buffer@.len(),
player_index_of(current_player@) matches Some(p) ==> sections_end(
    empty_flag as nat,
    len_oop as nat,
    len_ip as nat,
) + 2 * num_actions * (if p == 0 { len_oop } else { len_ip }) <= usize::MAX,
    ensures
result_read(
    res,
    buffer@,
    eqr_base,
    empty_flag,
    len_oop,
    len_ip,
    current_player@,
    num_actions,
    fill,
    oop_cards,
    ip_cards,
),
{
    let blen = buffer.len();
    let mut offset: usize = 3;
    let w0 = copy_segment(buffer, offset, len_oop);
    offset += len_oop;
    let w1 = copy_segment(buffer, offset, len_ip);
    offset += len_ip;
    let is_empty = empty_flag == 3;
    let mut normalizer: Vec<Vec<T>> = Vec::new();
    let mut equity: Vec<Vec<T>> = Vec::new();
    let mut ev: Vec<Vec<T>> = Vec::new();
    let mut eqr: Vec<Vec<T>> = Vec::new();
    if empty_flag > 0 {
normalizer.push(copy_segment(buffer, 3, len_oop));
normalizer.push(copy_segment(buffer, 3 + len_oop, len_ip));
equity.push(Vec::new());
equity.push(Vec::new());
ev.push(Vec::new());
ev.push(Vec::new());
eqr.push(Vec::new());
eqr.push(Vec::new());
    } else {
normalizer.push(copy_segment(buffer, offset, len_oop));
offset += len_oop;
normalizer.push(copy_segment(buffer, offset, len_ip));
offset += len_ip;
equity.push(copy_segment(buffer, offset, len_oop));
offset += len_oop;
equity.push(copy_segment(buffer, offset, len_ip));
offset += len_ip;
ev.push(copy_segment(buffer, offset, len_oop));
offset += len_oop;
ev.push(copy_segment(buffer, offset, len_ip));
offset += len_ip;
eqr.push(copy_segment(buffer, offset, len_oop));
offset += len_oop;
eqr.push(copy_segment(buffer, offset, len_ip));
offset += len_ip;
    }
    assert(offset == sections_end(empty_flag as nat, len_oop as nat, len_ip as nat));
    let mut strategy: Vec<T> = Vec::new();
    let mut action_ev: Vec<T> = Vec::new();
    let is_oop = str_equal(current_player, "oop");
    let is_ip = str_equal(current_player, "ip");
    proof {
reveal_strlit("oop");
reveal_strlit("ip");
    }
    proof {
if is_oop {
    assert(current_player@ =~= seq!['o', 'o', 'p']);
}
if is_ip {
    assert(current_player@ =~= seq!['i', 'p']);
}
if !is_oop && !is_ip {
    assert(current_player@ != seq!['o', 'o', 'p']) by {
        if current_player@ == seq!['o', 'o', 'p'] {
            assert("oop"@ =~= seq!['o', 'o', 'p']);
        }
    }
    assert(current_player@ != seq!['i', 'p']) by {
        if current_player@ == seq!['i', 'p'] {
            assert("ip"@ =~= seq!['i', 'p']);
        }
    }
}
    }
    if is_oop || is_ip {
let range_size = if is_oop { len_oop } else { len_ip };
assert(num_actions * range_size <= 2 * num_actions * range_size) by (nonlinear_arith);
assert(2 * num_actions * range_size == num_actions * range_size + num_actions * range_size) by (nonlinear_arith);
let count = num_actions * range_size;
strategy = copy_padded(buffer, offset, count, fill);
offset += count;
if !is_empty {
    action_ev = copy_padded(buffer, offset, count, fill);
}
    }
    let mut weights: Vec<Vec<T>> = Vec::new();
    weights.push(w0);
    weights.push(w1);
    let cp = crate::text::str_chars(current_player);
    SpecificResultData {
current_player: crate::text::string_from_chars(&cp),
num_actions,
is_empty,
eqr_base,
weights,
normalizer,
equity,
ev,
eqr,
strategy,
action_ev,
oop_cards,
ip_cards,
    }
}

/// All pieces one after the other.
pub open spec fn concat_all<T>(parts: Seq<Seq<T>>) -> Seq<T>
    decreases parts.len(),
{
    if parts.len() == 0 {
        seq![]
    } else {
        concat_all(parts.drop_last()) + parts.last()
    }
}

/// The element sequences of a vector of vectors.
pub open spec fn seqs_of<T>(parts: Seq<Vec<T>>) -> Seq<Seq<T>> {
    parts.map_values(|v: Vec<T>| v@)
}

/// The pieces of a node's result buffer.
pub struct ResultSections<T> {
    /// The pot of OOP, the pot of IP and the empty-range flag.
    pub header: Vec<T>,
    /// The weights of the OOP and IP ranges.
    pub weights: Vec<Vec<T>>,
    /// When neither range is empty: the normalized weights, equities, EVs
    /// and EV ratios, each for OOP then IP.
    pub details: Option<Vec<Vec<T>>>,
    /// At a decision node: the strategy of the player to act.
    pub strategy: Option<Vec<T>>,
    /// At a decision node when neither range is empty: the EV of each action.
    pub action_ev: Option<Vec<T>>,
}

/// The result buffer laid out from its pieces: the header, both weight
/// sections, then the details (or, when a range is empty, both weight
/// sections again), then the strategy and the action EVs when present.
pub open spec fn result_buffer<T>(sec: ResultSections<T>) -> Seq<T> {
    let w = sec.weights@;
    sec.header@ + w[0]@ + w[1]@ + (match sec.details {
        Some(d) => concat_all(seqs_of(d@)),
        None => w[0]@ + w[1]@,
    }) + (match sec.strategy {
        Some(st) => st@,
        None => seq![],
    }) + (match sec.action_ev {
        Some(a) => a@,
        None => seq![],
    })
}

/// Lays out a node's result buffer from its pieces.
pub fn layout_result_buffer<T: Copy>(sections: &ResultSections<T>) -> (buffer: Vec<T>)
    requires
        sections.weights@.len() == 2,
    ensures
        buffer@ == result_buffer(*sections),
{
    let mut buffer: Vec<T> = Vec::new();
    append_all(&mut buffer, &sections.header);
    append_all(&mut buffer, &sections.weights[0]);
    append_all(&mut buffer, &sections.weights[1]);
    match &sections.details {
        Some(d) => {
            let mut i: usize = 0;
            let ghost base = buffer@;
            while i < d.len()
                invariant
                    i <= d@.len(),
                    buffer@ == base + concat_all(seqs_of(d@.subrange(0, i as int))),
                decreases d@.len() - i,
            {
                let ghost prev = d@.subrange(0, i as int);
                assert(seqs_of(d@.subrange(0, i + 1)).drop_last() =~= seqs_of(prev));
                append_all(&mut buffer, &d[i]);
                i += 1;
            }
            assert(d@.subrange(0, d@.len() as int) =~= d@);
        },
        None => {
            append_all(&mut buffer, &sections.weights[0]);
            append_all(&mut buffer, &sections.weights[1]);
        },
    }
    match &sections.strategy {
        Some(st) => append_all(&mut buffer, st),
        None => {},
    }
    match &sections.action_ev {
        Some(a) => append_all(&mut buffer, a),
        None => {},
    }
    assert(buffer@ =~= result_buffer(*sections));
    buffer
}

/// Appends all of `tail` to `v`.
fn append_all<T: Copy>(v: &mut Vec<T>, tail: &Vec<T>)
    ensures
        final(v)@ == old(v)@ + tail@,
{
    let mut i: usize = 0;
    while i < tail.len()
        invariant
            i <= tail@.len(),
            v@ == old(v)@ + tail@.subrange(0, i as int),
        decreases tail@.len() - i,
    {
        v.push(tail[i]);
        assert(tail@.subrange(0, i + 1) == tail@.subrange(0, i as int).push(tail@[i as int]));
        i += 1;
    }
    assert(tail@.subrange(0, tail@.len() as int) == tail@);
}

/// The number of cards a chance report covers.
pub open spec fn report_cards() -> int {
    52
}

/// The chance-report buffer laid out from its pieces: the status of each
/// card, then the combos, equities, EVs and EV ratios (each for OOP then
/// IP), then the strategy summary.
pub open spec fn chance_report_buffer<T>(
    status: Seq<T>,
    combos: Seq<Seq<T>>,
    equity: Seq<Seq<T>>,
    ev: Seq<Seq<T>>,
    eqr: Seq<Seq<T>>,
    strategy: Seq<T>,
) -> Seq<T> {
    status + combos[0] + combos[1] + equity[0] + equity[1] + ev[0] + ev[1] + eqr[0] + eqr[1]
        + strategy
}

/// Lays out a chance-report buffer from its pieces.
pub fn layout_chance_reports<T: Copy>(
    status: &Vec<T>,
    combos: &Vec<Vec<T>>,
    equity: &Vec<Vec<T>>,
    ev: &Vec<Vec<T>>,
    eqr: &Vec<Vec<T>>,
    strategy: &Vec<T>,
) -> (buffer: Vec<T>)
    requires
        combos@.len() == 2,
        equity@.len() == 2,
        ev@.len() == 2,
        eqr@.len() == 2,
    ensures
        buffer@ == chance_report_buffer(
            status@,
            seqs_of(combos@),
            seqs_of(equity@),
            seqs_of(ev@),
            seqs_of(eqr@),
            strategy@,
        ),
{
    let mut buffer: Vec<T> = Vec::new();
    append_all(&mut buffer, status);
    append_all(&mut buffer, &combos[0]);
    append_all(&mut buffer, &combos[1]);
    append_all(&mut buffer, &equity[0]);
    append_all(&mut buffer, &equity[1]);
    append_all(&mut buffer, &ev[0]);
    append_all(&mut buffer, &ev[1]);
    append_all(&mut buffer, &eqr[0]);
    append_all(&mut buffer, &eqr[1]);
    append_all(&mut buffer, strategy);
    buffer
}

/// `res` holds what `parse_chance_reports` reads from `buffer`: nine
/// sections of 52 entries (status, combos, equities, EVs and EV ratios of
/// OOP and IP), then, unless the player is `"terminal"`, 52 entries per
/// action of strategy summary.
pub open spec fn chance_reports_read<T>(
    res: SpecificChanceReportData<T>,
    buffer: Seq<T>,
    player: Seq<char>,
    num_actions: usize,
) -> bool {
    let b = buffer;
    &&& res.current_player@ == player
    &&& res.num_actions == num_actions
    &&& res.status@ == b.subrange(0, 52)
    &&& res.combos@.len() == 2 && res.equity@.len() == 2 && res.ev@.len() == 2 && res.eqr@.len() == 2
    &&& res.combos@[0]@ == b.subrange(52, 104) && res.combos@[1]@ == b.subrange(104, 156)
    &&& res.equity@[0]@ == b.subrange(156, 208) && res.equity@[1]@ == b.subrange(208, 260)
    &&& res.ev@[0]@ == b.subrange(260, 312) && res.ev@[1]@ == b.subrange(312, 364)
    &&& res.eqr@[0]@ == b.subrange(364, 416) && res.eqr@[1]@ == b.subrange(416, 468)
    &&& res.strategy@ == if player != seq!['t', 'e', 'r', 'm', 'i', 'n', 'a', 'l'] {
        b.subrange(468, 468 + 52 * num_actions)
    } else {
        Seq::<T>::empty()
    }
}

/// Reads chance reports for `player` with `num_actions` actions from a
/// chance-report buffer.
pub fn parse_chance_reports<T: Copy>(buffer: &[T], player: &str, num_actions: usize) -> (res: SpecificChanceReportData<T>)
    requires
        468 <= buffer@.len(),
        player@ != seq!['t', 'e', 'r', 'm', 'i', 'n', 'a', 'l'] ==> 468 + 52 * num_actions
            <= buffer@.len(),
    ensures
        chance_reports_read(res, buffer@, player@, num_actions),
{
    let blen = buffer.len();
    let status = copy_segment(buffer, 0, 52);
    let mut combos: Vec<Vec<T>> = Vec::new();
    combos.push(copy_segment(buffer, 52, 52));
    combos.push(copy_segment(buffer, 104, 52));
    let mut equity: Vec<Vec<T>> = Vec::new();
    equity.push(copy_segment(buffer, 156, 52));
    equity.push(copy_segment(buffer, 208, 52));
    let mut ev: Vec<Vec<T>> = Vec::new();
    ev.push(copy_segment(buffer, 260, 52));
    ev.push(copy_segment(buffer, 312, 52));
    let mut eqr: Vec<Vec<T>> = Vec::new();
    eqr.push(copy_segment(buffer, 364, 52));
    eqr.push(copy_segment(buffer, 416, 52));
    let terminal = vec!['t', 'e', 'r', 'm', 'i', 'n', 'a', 'l'];
    assert(terminal@ =~= seq!['t', 'e', 'r', 'm', 'i', 'n', 'a', 'l']);
    let pc = crate::text::str_chars(player);
    let strategy = if !crate::text::chars_equal(&pc, &terminal) {
        copy_segment(buffer, 468, 52 * num_actions)
    } else {
        Vec::new()
    };
    SpecificChanceReportData {
        current_player: crate::text::string_from_chars(&pc),
        num_actions,
        status,
        combos,
        equity,
        ev,
        eqr,
        strategy,
    }
}

/// Where the details of player `player` (0 or 1) sit in the result buffer of a node
/// whose ranges are not empty: its equities, its EVs, the strategy and the
/// action EVs (`num_actions` entries per hand of the player's range).
pub open spec fn detail_offsets_spec(len_oop: int, len_ip: int, player: int, num_actions: int) -> (int, int, int, int) {
    let n = len_oop + len_ip;
    let shift = if player == 1 { len_oop } else { 0 };
    let size = if player == 0 { len_oop } else { len_ip };
    (3 + 2 * n + shift, 3 + 3 * n + shift, 3 + 5 * n, 3 + 5 * n + num_actions * size)
}

/// Where the details of the player to act sit in a node's result buffer.
pub fn hand_detail_offsets(len_oop: usize, len_ip: usize, player: usize, num_actions: usize) -> (res: (usize, usize, usize, usize))
    requires
        player <= 1,
        3 + 5 * (len_oop + len_ip) + num_actions * (if player == 0 { len_oop } else { len_ip }) <= usize::MAX,
    ensures
        (res.0 as int, res.1 as int, res.2 as int, res.3 as int) == detail_offsets_spec(
            len_oop as int,
            len_ip as int,
            player as int,
            num_actions as int,
        ),
{
    let current_range_size = if player == 0 { len_oop } else { len_ip };
    let mut offset: usize = 3;
    offset += len_oop + len_ip;
    offset += len_oop + len_ip;
    if player == 1 {
        offset += len_oop;
    }
    let player_equity_offset = offset;
    offset += current_range_size + (if player == 0 { len_ip } else { 0 });
    if player == 1 {
        offset += len_oop;
    }
    let player_ev_offset = offset;
    offset += current_range_size + (if player == 0 { len_ip } else { 0 });
    offset += len_oop + len_ip;
    let strategy_offset = offset;
    let action_ev_offset = strategy_offset + num_actions * current_range_size;
    (player_equity_offset, player_ev_offset, strategy_offset, action_ev_offset)
}

} // verus!
