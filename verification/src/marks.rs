//! What the drawings write and pick by themselves: the length of a span of time, the cells of a
//! table, the glyph of an icon, and the order a ghost feed replays the moves of its bars in.

use vstd::prelude::*;

use crate::text::{chars_of, decimal, push_char, push_decimal, same_chars, string_of, trim_chars, trimmed};

verus! {

/// How long a span of `ms` milliseconds is, in its two largest units: `3d 4h`, `2h 15m`, `45m`,
/// `30s`.
pub open spec fn duration_spec(ms: int) -> Seq<char> {
    let seconds = (if ms < 0 { -ms } else { ms }) / 1000;
    let days = seconds / 86_400;
    let hours = seconds % 86_400 / 3_600;
    let minutes = seconds % 3_600 / 60;
    if days > 0 {
        decimal(days as nat) + seq!['d', ' '] + decimal(hours as nat) + seq!['h']
    } else if hours > 0 {
        decimal(hours as nat) + seq!['h', ' '] + decimal(minutes as nat) + seq!['m']
    } else if minutes > 0 {
        decimal(minutes as nat) + seq!['m']
    } else {
        decimal(seconds as nat) + seq!['s']
    }
}

/// How long a time span is, in the two largest units: `3d 4h`, `2h 15m`, `45m`, `30s`.
pub fn duration_text(ms: i64) -> (r: String)
    requires
        ms > i64::MIN,
    ensures
        r@ == duration_spec(ms as int),
{
    let seconds: u64 = ((if ms < 0 { -ms } else { ms }) / 1_000) as u64;
    let days = seconds / 86_400;
    let hours = seconds % 86_400 / 3_600;
    let minutes = seconds % 3_600 / 60;
    let mut s = String::new();
    if days > 0 {
        push_decimal(&mut s, days);
        push_char(&mut s, 'd');
        push_char(&mut s, ' ');
        push_decimal(&mut s, hours);
        push_char(&mut s, 'h');
    } else if hours > 0 {
        push_decimal(&mut s, hours);
        push_char(&mut s, 'h');
        push_char(&mut s, ' ');
        push_decimal(&mut s, minutes);
        push_char(&mut s, 'm');
    } else if minutes > 0 {
        push_decimal(&mut s, minutes);
        push_char(&mut s, 'm');
    } else {
        push_decimal(&mut s, seconds);
        push_char(&mut s, 's');
    }
    proof {
        assert(s@ =~= duration_spec(ms as int));
    }
    s
}

/// The glyphs an icon drawing can show: a key and a name.
pub const ICONS: [(&'static str, &'static str); 10] = [
    ("star", "Star"),
    ("circle", "Circle"),
    ("square", "Square"),
    ("diamond", "Diamond"),
    ("triangle_up", "Triangle up"),
    ("triangle_down", "Triangle down"),
    ("cross", "Cross"),
    ("check", "Check"),
    ("heart", "Heart"),
    ("bolt", "Bolt"),
];

/// The keys of the glyphs, in order.
pub open spec fn icon_keys() -> Seq<Seq<char>> {
    seq![
        "star"@,
        "circle"@,
        "square"@,
        "diamond"@,
        "triangle_up"@,
        "triangle_down"@,
        "cross"@,
        "check"@,
        "heart"@,
        "bolt"@,
    ]
}

/// The glyph an icon drawing holding `text` shows: the one it names (white space at the ends
/// aside), or the star.
pub open spec fn icon_key_spec(text: Seq<char>) -> Seq<char> {
    let t = trimmed(text);
    if icon_keys().contains(t) {
        t
    } else {
        "star"@
    }
}

/// The name of the glyph an icon drawing shows: the one it holds, or the star.
pub fn icon_key(text: &str) -> (r: &'static str)
    ensures
        r@ == icon_key_spec(text@),
{
    let t = trim_chars(&chars_of(text));
    let mut i: usize = 0;
    while i < 10
        invariant
            i <= 10,
            t@ == trimmed(text@),
            forall|j: int| 0 <= j < 10 ==> #[trigger] ICONS@[j].0@ == icon_keys()[j],
            forall|j: int| 0 <= j < i ==> icon_keys()[j] != t@,
        decreases 10 - i,
    {
        let key = ICONS[i].0;
        if same_chars(&t, &chars_of(key)) {
            return key;
        }
        i = i + 1;
    }
    proof {
        assert(!icon_keys().contains(t@));
    }
    "star"
}

/// `s` cut at every `sep`: the pieces between them, in order (an empty one where two meet).
pub open spec fn pieces(s: Seq<char>, sep: char) -> Seq<Seq<char>>
    decreases s.len(),
{
    if s.len() == 0 {
        seq![Seq::<char>::empty()]
    } else {
        let p = pieces(s.drop_last(), sep);
        if s.last() == sep {
            p.push(Seq::<char>::empty())
        } else {
            p.update(p.len() - 1, p.last().push(s.last()))
        }
    }
}

proof fn lemma_pieces_nonempty(s: Seq<char>, sep: char)
    ensures
        pieces(s, sep).len() >= 1,
    decreases s.len(),
{
    if s.len() > 0 {
        lemma_pieces_nonempty(s.drop_last(), sep);
    }
}

/// A line without the carriage return that ended it.
pub open spec fn strip_cr(line: Seq<char>) -> Seq<char> {
    if line.len() > 0 && line.last() == '\r' {
        line.drop_last()
    } else {
        line
    }
}

/// The lines of `s`, as reading a text line by line gives them: split at each line feed, a
/// carriage return just before one dropped, and no empty line after a final line feed.
pub open spec fn lines_spec(s: Seq<char>) -> Seq<Seq<char>> {
    if s.len() == 0 {
        Seq::empty()
    } else {
        let p = pieces(s, '\n');
        let body = if s.last() == '\n' { p.drop_last() } else { p };
        Seq::new(body.len(), |i: int| if i < p.len() - 1 { strip_cr(body[i]) } else { body[i] })
    }
}

/// The words a table shows when it has none of its own.
pub open spec fn sample_table() -> Seq<char> {
    "Item | Value\nEntry | 0.0\nStop | 0.0"@
}

/// The text a table is read from: its own, or the sample when it is blank.
pub open spec fn table_source(text: Seq<char>) -> Seq<char> {
    if trimmed(text).len() == 0 { sample_table() } else { text }
}

/// The cells of one line: split at each bar, white space at their ends dropped.
pub open spec fn line_cells(line: Seq<char>) -> Seq<Seq<char>> {
    pieces(line, '|').map_values(|c: Seq<char>| trimmed(c))
}

/// How many cells the longest line has (one for a table of no lines).
pub open spec fn widest(lines: Seq<Seq<char>>) -> nat
    decreases lines.len(),
{
    if lines.len() == 0 {
        1
    } else {
        let rest = widest(lines.drop_last());
        let here = line_cells(lines.last()).len();
        if lines.len() == 1 { here } else if here > rest { here } else { rest }
    }
}

/// The characters of each of the vectors.
pub open spec fn views(v: Seq<Vec<char>>) -> Seq<Seq<char>> {
    v.map_values(|x: Vec<char>| x@)
}

fn split_chars(s: &Vec<char>, sep: char) -> (out: Vec<Vec<char>>)
    ensures
        views(out@) == pieces(s@, sep),
{
    let mut out: Vec<Vec<char>> = Vec::new();
    out.push(Vec::new());
    let mut i: usize = 0;
    proof {
        assert(views(out@) =~= seq![Seq::<char>::empty()]);
        assert(s@.subrange(0, 0) =~= Seq::<char>::empty());
    }
    while i < s.len()
        invariant
            i <= s@.len(),
            out@.len() >= 1,
            views(out@) == pieces(s@.subrange(0, i as int), sep),
        decreases s@.len() - i,
    {
        let c = s[i];
        let ghost before = views(out@);
        proof {
            assert(s@.subrange(0, i + 1).drop_last() =~= s@.subrange(0, i as int));
            assert(s@.subrange(0, i + 1).last() == c);
        }
        if c == sep {
            out.push(Vec::new());
            proof {
                assert(views(out@) =~= before.push(Seq::<char>::empty()));
            }
        } else {
            let last = out.len() - 1;
            out[last].push(c);
            proof {
                assert(views(out@) =~= before.update(before.len() - 1, before.last().push(c)));
            }
        }
        i = i + 1;
    }
    proof {
        assert(s@.subrange(0, s@.len() as int) =~= s@);
    }
    out
}

fn lines_of(s: &Vec<char>) -> (out: Vec<Vec<char>>)
    ensures
        views(out@) == lines_spec(s@),
{
    if s.len() == 0 {
        let out: Vec<Vec<char>> = Vec::new();
        proof {
            assert(views(out@) =~= lines_spec(s@));
        }
        return out;
    }
    let p = split_chars(s, '\n');
    let n = p.len();
    proof {
        lemma_pieces_nonempty(s@, '\n');
        assert(views(p@).len() == p@.len());
    }
    let count = if s[s.len() - 1] == '\n' { n - 1 } else { n };
    let mut out: Vec<Vec<char>> = Vec::new();
    let mut i: usize = 0;
    while i < count
        invariant
            i <= count <= n,
            n == p@.len(),
            views(p@) == pieces(s@, '\n'),
            s@.len() > 0,
            count == if s@.last() == '\n' { n - 1 } else { n as int },
            views(out@) == lines_spec(s@).subrange(0, i as int),
        decreases count - i,
    {
        let mut line = p[i].clone();
        let len = line.len();
        proof {
            assert(line@ == p@[i as int]@);
            assert(views(p@)[i as int] == p@[i as int]@);
        }
        if i + 1 < n && len > 0 && line[len - 1] == '\r' {
            line.pop();
        }
        let ghost prev = views(out@);
        out.push(line);
        proof {
            assert(views(out@) =~= prev.push(line@));
            assert(lines_spec(s@).subrange(0, i + 1) =~= lines_spec(s@).subrange(0, i as int).push(lines_spec(s@)[i as int]));
        }
        i = i + 1;
    }
    proof {
        assert(lines_spec(s@).len() == count);
        assert(lines_spec(s@).subrange(0, count as int) =~= lines_spec(s@));
    }
    out
}

/// What a table of `text` shows in cell `j` of line `i`: the words of that cell, or nothing past
/// the end of a short line.
pub open spec fn table_cell(text: Seq<char>, i: int, j: int) -> Seq<char> {
    let cells = line_cells(lines_spec(table_source(text))[i]);
    if j < cells.len() { cells[j] } else { Seq::empty() }
}

/// The cells of the words of a table: a row per line, cells split by a bar, every row as long
/// as the longest.
pub fn table_cells(text: &str) -> (out: Vec<Vec<String>>)
    ensures
        out@.len() == lines_spec(table_source(text@)).len(),
        forall|i: int| 0 <= i < out@.len() ==> (#[trigger] out@[i])@.len() == widest(lines_spec(table_source(text@))),
        forall|i: int, j: int| 0 <= i < out@.len() && 0 <= j < out@[i]@.len() ==> (#[trigger] out@[i]@[j])@ == table_cell(text@, i, j),
{
    let own = chars_of(text);
    let source = if trim_chars(&own).len() == 0 {
        chars_of("Item | Value\nEntry | 0.0\nStop | 0.0")
    } else {
        own
    };
    let lines = lines_of(&source);
    let ghost ls = lines_spec(table_source(text@));
    assert(source@ == table_source(text@));
    let mut rows: Vec<Vec<String>> = Vec::new();
    let mut w: usize = 1;
    let mut i: usize = 0;
    while i < lines.len()
        invariant
            i <= lines@.len(),
            views(lines@) == ls,
            rows@.len() == i,
            i == 0 ==> w == 1,
            i > 0 ==> w == widest(ls.subrange(0, i as int)),
            forall|k: int| 0 <= k < i ==> (#[trigger] rows@[k])@.len() == line_cells(ls[k]).len(),
            forall|k: int, j: int| 0 <= k < i && 0 <= j < rows@[k]@.len() ==> (#[trigger] rows@[k]@[j])@ == line_cells(ls[k])[j],
        decreases lines@.len() - i,
    {
        assert(views(lines@)[i as int] == lines@[i as int]@);
        let parts = split_chars(&lines[i], '|');
        let mut row: Vec<String> = Vec::new();
        let mut j: usize = 0;
        while j < parts.len()
            invariant
                j <= parts@.len(),
                views(parts@) == pieces(ls[i as int], '|'),
                row@.len() == j,
                forall|m: int| 0 <= m < j ==> (#[trigger] row@[m])@ == line_cells(ls[i as int])[m],
            decreases parts@.len() - j,
        {
            assert(views(parts@)[j as int] == parts@[j as int]@);
            let cell = string_of(&trim_chars(&parts[j]));
            row.push(cell);
            j = j + 1;
        }
        let here = row.len();
        proof {
            assert(ls.subrange(0, i + 1).drop_last() =~= ls.subrange(0, i as int));
            assert(ls.subrange(0, i + 1).last() == ls[i as int]);
        }
        if i == 0 || here > w {
            w = here;
        }
        let ghost before = rows@;
        rows.push(row);
        proof {
            assert forall|k: int| 0 <= k < i implies rows@[k] == before[k] by {}
        }
        i = i + 1;
    }
    proof {
        assert(ls.subrange(0, lines@.len() as int) =~= ls);
    }
    let mut k: usize = 0;
    let n = rows.len();
    let mut out: Vec<Vec<String>> = Vec::new();
    while k < n
        invariant
            k <= n,
            ls == lines_spec(table_source(text@)),
            n == rows@.len() == ls.len(),
            w == widest(ls),
            forall|a: int| 0 <= a < n ==> (#[trigger] rows@[a])@.len() == line_cells(ls[a]).len(),
            forall|a: int, j: int| 0 <= a < n && 0 <= j < rows@[a]@.len() ==> (#[trigger] rows@[a]@[j])@ == line_cells(ls[a])[j],
            out@.len() == k,
            forall|a: int| 0 <= a < k ==> (#[trigger] out@[a])@.len() == w,
            forall|a: int, j: int| 0 <= a < k && 0 <= j < w ==> (#[trigger] out@[a]@[j])@ == table_cell(text@, a, j),
        decreases n - k,
    {
        let mut row: Vec<String> = Vec::new();
        let mut j: usize = 0;
        proof {
            lemma_widest_covers(ls, k as int);
        }
        while j < w
            invariant
                j <= w,
                k < n,
                ls == lines_spec(table_source(text@)),
                n == rows@.len() == ls.len(),
                w >= rows@[k as int]@.len(),
                rows@[k as int]@.len() == line_cells(ls[k as int]).len(),
                forall|m: int| 0 <= m < rows@[k as int]@.len() ==> (#[trigger] rows@[k as int]@[m])@ == line_cells(ls[k as int])[m],
                row@.len() == j,
                forall|m: int| 0 <= m < j ==> (#[trigger] row@[m])@ == table_cell(text@, k as int, m),
            decreases w - j,
        {
            if j < rows[k].len() {
                let cell = rows[k][j].clone();
                row.push(cell);
            } else {
                row.push(String::new());
            }
            j = j + 1;
        }
        out.push(row);
        k = k + 1;
    }
    out
}

proof fn lemma_widest_covers(lines: Seq<Seq<char>>, k: int)
    requires
        0 <= k < lines.len(),
    ensures
        line_cells(lines[k]).len() <= widest(lines),
    decreases lines.len(),
{
    if k < lines.len() - 1 {
        lemma_widest_covers(lines.drop_last(), k);
    }
}

/// Most bars a bars pattern or a ghost feed copies.
pub const MAX_GHOST_BARS: usize = 400;

/// The seed a ghost feed of `n` bars starts from, made from the drawing's id.
pub open spec fn ghost_seed(id: u64, n: u64) -> u64 {
    id.wrapping_mul(0x9e37_79b9_7f4a_7c15).wrapping_add(n)
}

/// One step of the generator that picks the bars of a ghost feed.
pub open spec fn ghost_step(seed: u64) -> u64 {
    seed.wrapping_mul(6_364_136_223_846_793_005).wrapping_add(1_442_695_040_888_963_407)
}

/// The generator's state after `steps` steps.
pub open spec fn ghost_state(id: u64, n: u64, steps: nat) -> u64
    decreases steps,
{
    if steps == 0 {
        ghost_seed(id, n)
    } else {
        ghost_step(ghost_state(id, n, (steps - 1) as nat))
    }
}

/// Which of the `n` source bars the `i`-th bar of a ghost feed replays the move of.
pub open spec fn ghost_pick(id: u64, n: u64, i: nat) -> int {
    (ghost_state(id, n, i + 1) >> 33u64) as int % (n as int)
}

/// The order in which a ghost feed of the drawing `id` replays the moves of its `n` source bars:
/// a bar for each, each picked by a generator seeded with the drawing's id, so that the feed is
/// the same every time it is drawn.
pub fn ghost_order(id: u64, n: usize) -> (out: Vec<usize>)
    ensures
        out@.len() == n,
        forall|i: int| 0 <= i < n ==> (#[trigger] out@[i]) as int == ghost_pick(id, n as u64, i as nat),
        forall|i: int| 0 <= i < n ==> #[trigger] out@[i] < n,
{
    let mut out: Vec<usize> = Vec::new();
    if n == 0 {
        return out;
    }
    let mut seed: u64 = id.wrapping_mul(0x9e37_79b9_7f4a_7c15).wrapping_add(n as u64);
    let mut i: usize = 0;
    while i < n
        invariant
            0 < n,
            i <= n,
            out@.len() == i,
            seed == ghost_state(id, n as u64, i as nat),
            forall|k: int| 0 <= k < i ==> (#[trigger] out@[k]) as int == ghost_pick(id, n as u64, k as nat),
            forall|k: int| 0 <= k < i ==> #[trigger] out@[k] < n,
        decreases n - i,
    {
        seed = seed.wrapping_mul(6_364_136_223_846_793_005).wrapping_add(1_442_695_040_888_963_407);
        let high: u64 = seed >> 33u64;
        assert(high < 0x8000_0000u64) by (bit_vector)
            requires
                high == seed >> 33u64,
        ;
        let pick: usize = (high as usize) % n;
        out.push(pick);
        i = i + 1;
    }
    out
}

} // verus!
