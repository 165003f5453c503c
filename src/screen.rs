use vstd::prelude::*;

use crate::direction::Direction;

verus! {

/// The shape of one body segment; only `Def` is drawn so far.
#[derive(Debug, Clone, Copy)]
pub enum SegmentType {
    Def,
    End(Direction),
    Corner(Direction),
    Straight(Direction),
}

/// One body segment: its cell (row, column) and its shape.
pub struct Segment {
    pub position: (u32, u32),
    pub kind: SegmentType,
}

impl Segment {
    /// A segment of the default shape at `pos`.
    pub fn new(pos: (u32, u32)) -> (r: Segment)
        ensures
            r.position == pos,
            r.kind == SegmentType::Def,
    {
        Segment { position: pos, kind: SegmentType::Def }
    }
}

/// Gives each segment its shape; every segment keeps the default shape, so
/// the body is handed back as it is.
pub fn _update_snake(snake: &Vec<Segment>) -> (r: &Vec<Segment>)
    ensures
        r == snake,
{
    snake
}

/// What one cell of the screen shows.
#[derive(Debug, Clone, Copy)]
pub enum GameItems {
    Apple,
    SnakeTailSegment(SegmentType),
    SnakeHead(Direction),
    Empty,
}

/// The two characters that draw a cell.
pub open spec fn glyph_text(item: GameItems) -> Seq<char> {
    match item {
        GameItems::Empty => "  "@,
        GameItems::Apple => "()"@,
        GameItems::SnakeTailSegment(s) => match s {
            SegmentType::Def => "[]"@,
            SegmentType::End(d) => match d {
                Direction::Left => "[="@,
                Direction::Right => "=]"@,
                Direction::Up => "TT"@,
                Direction::Down => "L/"@,
            },
            SegmentType::Corner(d) => match d {
                Direction::Left => "./"@,
                Direction::Up => "\\."@,
                Direction::Right => "/'"@,
                Direction::Down => "'\\"@,
            },
            SegmentType::Straight(d) => match d {
                Direction::Down | Direction::Up => "||"@,
                Direction::Right | Direction::Left => "=="@,
            },
        },
        GameItems::SnakeHead(d) => match d {
            Direction::Right => "0{"@,
            Direction::Down => "/\\"@,
            Direction::Left => "}0"@,
            Direction::Up => "\\/"@,
        },
    }
}

impl GameItems {
    /// The two characters that draw this cell.
    pub fn glyph(&self) -> (r: &'static str)
        ensures
            r@ == glyph_text(*self),
    {
        match self {
            GameItems::Empty => "  ",
            GameItems::Apple => "()",
            GameItems::SnakeTailSegment(s) => match s {
                SegmentType::Def => "[]",
                SegmentType::End(d) => match d {
                    Direction::Left => "[=",
                    Direction::Right => "=]",
                    Direction::Up => "TT",
                    Direction::Down => "L/",
                },
                SegmentType::Corner(d) => match d {
                    Direction::Left => "./",
                    Direction::Up => "\\.",
                    Direction::Right => "/'",
                    Direction::Down => "'\\",
                },
                SegmentType::Straight(d) => match d {
                    Direction::Down | Direction::Up => "||",
                    Direction::Right | Direction::Left => "==",
                },
            },
            GameItems::SnakeHead(d) => match d {
                Direction::Right => "0{",
                Direction::Down => "/\\",
                Direction::Left => "}0",
                Direction::Up => "\\/",
            },
        }
    }
}

/// A row of `w` empty cells.
pub open spec fn empty_row(w: nat) -> Seq<GameItems> {
    Seq::new(w, |j: int| GameItems::Empty)
}

/// A screen of the same size as `s` (as many rows, each as long as the
/// first), every cell empty.
pub fn reset_screen(s: &[Vec<GameItems>]) -> (r: Vec<Vec<GameItems>>)
    requires
        s@.len() > 0,
    ensures
        r@.len() == s@.len(),
        forall|i: int| 0 <= i < r@.len() ==> #[trigger] r@[i]@ == empty_row(s@[0]@.len()),
{
    let h = s.len();
    let w = s[0].len();
    let mut screen: Vec<Vec<GameItems>> = Vec::new();
    let mut i: usize = 0;
    while i < h
        invariant
            i <= h,
            w == s@[0]@.len(),
            screen@.len() == i,
            forall|k: int| 0 <= k < i ==> #[trigger] screen@[k]@ == empty_row(w as nat),
        decreases h - i,
    {
        let mut row: Vec<GameItems> = Vec::new();
        let mut j: usize = 0;
        while j < w
            invariant
                j <= w,
                row@ == empty_row(j as nat),
            decreases w - j,
        {
            row.push(GameItems::Empty);
            j = j + 1;
            assert(row@ =~= empty_row(j as nat));
        }
        screen.push(row);
        i = i + 1;
    }
    screen
}

/// `s` written `n` times in a row.
pub open spec fn repeated(s: Seq<char>, n: nat) -> Seq<char>
    decreases n,
{
    if n == 0 {
        Seq::empty()
    } else {
        repeated(s, (n - 1) as nat) + s
    }
}

/// The glyphs of a row of cells, left to right.
pub open spec fn row_text(row: Seq<GameItems>) -> Seq<char>
    decreases row.len(),
{
    if row.len() == 0 {
        Seq::empty()
    } else {
        row_text(row.drop_last()) + glyph_text(row.last())
    }
}

/// The framed lines of a screen's rows, top to bottom.
pub open spec fn rows_text(rows: Seq<Vec<GameItems>>) -> Seq<char>
    decreases rows.len(),
{
    if rows.len() == 0 {
        Seq::empty()
    } else {
        rows_text(rows.drop_last()) + " ¦"@ + row_text(rows.last()@) + "¦\n"@
    }
}

/// The decimal digit for `d < 10`.
pub open spec fn digit_text(d: nat) -> Seq<char> {
    if d == 0 {
        "0"@
    } else if d == 1 {
        "1"@
    } else if d == 2 {
        "2"@
    } else if d == 3 {
        "3"@
    } else if d == 4 {
        "4"@
    } else if d == 5 {
        "5"@
    } else if d == 6 {
        "6"@
    } else if d == 7 {
        "7"@
    } else if d == 8 {
        "8"@
    } else {
        "9"@
    }
}

/// `n` in decimal, without leading zeros.
pub open spec fn decimal(n: nat) -> Seq<char>
    decreases n,
{
    if n < 10 {
        digit_text(n)
    } else {
        decimal(n / 10) + digit_text(n % 10)
    }
}

/// The text of one frame: the screen in a border as wide as its first row,
/// then the score.
pub open spec fn frame_text(screen: Seq<Vec<GameItems>>, score: u32) -> Seq<char> {
    let w = screen[0]@.len();
    " ."@ + repeated(",."@, w) + ",\n"@ + rows_text(screen) + " ¨"@ + repeated("\"¨"@, w) + "\"\n"@
        + "score: "@ + decimal(score as nat) + "\n"@
}

fn digit_str(d: u32) -> (r: &'static str)
    requires
        d < 10,
    ensures
        r@ == digit_text(d as nat),
{
    match d {
        0 => "0",
        1 => "1",
        2 => "2",
        3 => "3",
        4 => "4",
        5 => "5",
        6 => "6",
        7 => "7",
        8 => "8",
        _ => "9",
    }
}

fn append_decimal(out: &mut String, n: u32)
    ensures
        final(out)@ == old(out)@ + decimal(n as nat),
    decreases n,
{
    if n >= 10 {
        append_decimal(out, n / 10);
    }
    out.append(digit_str(n % 10));
    assert(final(out)@ =~= old(out)@ + decimal(n as nat));
}

fn append_repeated(out: &mut String, s: &str, n: usize)
    ensures
        final(out)@ == old(out)@ + repeated(s@, n as nat),
{
    let mut k: usize = 0;
    while k < n
        invariant
            k <= n,
            out@ == old(out)@ + repeated(s@, k as nat),
        decreases n - k,
    {
        out.append(s);
        k = k + 1;
        assert(out@ =~= old(out)@ + repeated(s@, k as nat));
    }
}

/// The text that shows one frame, as the terminal prints it.
pub fn render_frame(screen: &[Vec<GameItems>], score: u32) -> (r: String)
    requires
        screen@.len() > 0,
    ensures
        r@ == frame_text(screen@, score),
{
    let w = screen[0].len();
    let mut out = String::new();
    out.append(" .");
    append_repeated(&mut out, ",.", w);
    out.append(",\n");
    let mut i: usize = 0;
    while i < screen.len()
        invariant
            i <= screen@.len(),
            w == screen@[0]@.len(),
            out@ == " ."@ + repeated(",."@, w as nat) + ",\n"@ + rows_text(screen@.take(i as int)),
        decreases screen@.len() - i,
    {
        let row = &screen[i];
        let ghost before = out@;
        out.append(" ¦");
        let mut j: usize = 0;
        while j < row.len()
            invariant
                j <= row@.len(),
                out@ == before + " ¦"@ + row_text(row@.take(j as int)),
            decreases row@.len() - j,
        {
            out.append(row[j].glyph());
            assert(row@.take(j + 1).drop_last() =~= row@.take(j as int));
            j = j + 1;
            assert(out@ =~= before + " ¦"@ + row_text(row@.take(j as int)));
        }
        out.append("¦\n");
        assert(row@.take(j as int) =~= row@);
        assert(screen@.take(i + 1).drop_last() =~= screen@.take(i as int));
        i = i + 1;
        assert(out@ =~= " ."@ + repeated(",."@, w as nat) + ",\n"@ + rows_text(screen@.take(i as int)));
    }
    assert(screen@.take(i as int) =~= screen@);
    out.append(" ¨");
    append_repeated(&mut out, "\"¨", w);
    out.append("\"\n");
    out.append("score: ");
    append_decimal(&mut out, score);
    out.append("\n");
    assert(out@ =~= frame_text(screen@, score));
    out
}

} // verus!
