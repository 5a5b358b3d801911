//! What a frame shows: where the border, the apple and the snake go on a
//! surface of character cells, and what the title says.
//!
//! A board cell is two columns wide and one row high, which comes close to a
//! square in most terminal fonts.

use vstd::prelude::*;
use vstd::string::StringExecFns;
use crate::board::BOARD_SIZE;
use crate::error::{GameError, MIN_HEIGHT, MIN_WIDTH};
use crate::state::{lemma_snake_within_bounds, GameState};

verus! {

/// A rectangle of character cells.
#[derive(Debug, Clone, Copy, PartialEq, Eq, Structural)]
pub struct Area {
    pub x: u16,
    pub y: u16,
    pub width: u16,
    pub height: u16,
}

/// What is drawn on a cell of the board.
#[derive(Debug, Clone, Copy, PartialEq, Eq, Structural)]
pub enum Glyph {
    Apple,
    Segment,
}

/// A glyph and the character cell at which it starts.
#[derive(Debug, Clone, Copy, PartialEq, Eq, Structural)]
pub struct Sprite {
    pub x: u16,
    pub y: u16,
    pub glyph: Glyph,
}

/// One frame, ready to be painted.
#[derive(Debug)]
pub struct Scene {
    /// The rectangle of the border, one cell thick.
    pub border: Area,
    /// The play field inside the border.
    pub board: Area,
    /// The score: the cells the snake has gained.
    pub score: usize,
    /// The title of the border.
    pub title: String,
    /// The glyphs in the order in which they are painted: a later one covers
    /// an earlier one on the same cell.
    pub sprites: Vec<Sprite>,
}

/// A frame as plain mathematical values.
pub struct SceneView {
    pub border: Area,
    pub board: Area,
    pub score: nat,
    pub title: Seq<char>,
    pub sprites: Seq<Sprite>,
}

impl View for Scene {
    type V = SceneView;

    open spec fn view(&self) -> SceneView {
        SceneView {
            border: self.border,
            board: self.board,
            score: self.score as nat,
            title: self.title@,
            sprites: self.sprites@,
        }
    }
}

impl Area {
    /// Whether the right and the lower edge can be told in a `u16`.
    pub open spec fn bounded(self) -> bool {
        self.x + self.width <= u16::MAX && self.y + self.height <= u16::MAX
    }

    /// Whether a board fits on the area.
    pub open spec fn fits(self) -> bool {
        self.width >= MIN_WIDTH && self.height >= MIN_HEIGHT
    }

    /// Whether the character cell `(x, y)` lies on the area.
    pub open spec fn covers(self, x: int, y: int) -> bool {
        self.x <= x < self.x + self.width && self.y <= y < self.y + self.height
    }
}

/// A rectangle that reaches no further than `u16::MAX` to the right and
/// downwards: width and height are cut where they would.
pub open spec fn clipped(x: u16, y: u16, width: u16, height: u16) -> Area {
    Area {
        x,
        y,
        width: if width > u16::MAX - x {
            (u16::MAX - x) as u16
        } else {
            width
        },
        height: if height > u16::MAX - y {
            (u16::MAX - y) as u16
        } else {
            height
        },
    }
}

/// Makes a rectangle whose right and lower edge stay within `u16`.
///
/// Calls `ratatui::layout::Rect::new` and hands its four fields on. Taken on
/// trust from its source: the corner is kept, and width and height are
/// lowered to `u16::MAX - x` and `u16::MAX - y` where they are larger.
#[verifier::external_body]
pub(crate) fn rect(x: u16, y: u16, width: u16, height: u16) -> (area: Area)
    ensures
        area == clipped(x, y, width, height),
{
    let r = ratatui::layout::Rect::new(x, y, width, height);
    Area { x: r.x, y: r.y, width: r.width, height: r.height }
}

/// The play field on `area`: centred, two columns for each cell but the last.
pub open spec fn board_area(area: Area) -> Area {
    Area {
        x: (area.x + area.width / 2 - BOARD_SIZE) as u16,
        y: (area.y + area.height / 2 - BOARD_SIZE / 2) as u16,
        width: ((BOARD_SIZE - 1) * 2) as u16,
        height: BOARD_SIZE,
    }
}

/// The border round the play field on `area`.
pub open spec fn border_area(area: Area) -> Area {
    let board = board_area(area);
    Area {
        x: (board.x - 1) as u16,
        y: (board.y - 1) as u16,
        width: (board.width + 4) as u16,
        height: (board.height + 2) as u16,
    }
}

/// The glyph of a board cell on the play field `board`.
pub open spec fn sprite_at(board: Area, cell: (u16, u16), glyph: Glyph) -> Sprite {
    Sprite { x: (cell.0 * 2 + board.x) as u16, y: (cell.1 + board.y) as u16, glyph }
}

/// The glyphs of a frame: the apple, then the snake from head to tail.
pub open spec fn sprites(board: Area, snake: Seq<(u16, u16)>, apple: (u16, u16)) -> Seq<Sprite> {
    Seq::new(
        snake.len() + 1,
        |i: int|
            if i == 0 {
                sprite_at(board, apple, Glyph::Apple)
            } else {
                sprite_at(board, snake[i - 1], Glyph::Segment)
            },
    )
}

/// The character of a decimal digit.
pub open spec fn digit(d: nat) -> char {
    if d == 0 {
        '0'
    } else if d == 1 {
        '1'
    } else if d == 2 {
        '2'
    } else if d == 3 {
        '3'
    } else if d == 4 {
        '4'
    } else if d == 5 {
        '5'
    } else if d == 6 {
        '6'
    } else if d == 7 {
        '7'
    } else if d == 8 {
        '8'
    } else {
        '9'
    }
}

/// A number in decimal digits, without leading zeros.
pub open spec fn decimal(n: nat) -> Seq<char>
    decreases n,
{
    if n < 10 {
        seq![digit(n)]
    } else {
        decimal(n / 10).push(digit(n % 10))
    }
}

/// The title for a score: the word, the number, and a blank on either side.
pub open spec fn label(score: nat) -> Seq<char> {
    seq![' ', 'S', 'c', 'o', 'r', 'e', ':', ' '] + decimal(score) + seq![' ']
}

/// The frame that shows a snake and an apple on `area`.
pub open spec fn picture(area: Area, snake: Seq<(u16, u16)>, apple: (u16, u16)) -> SceneView {
    SceneView {
        border: border_area(area),
        board: board_area(area),
        score: (snake.len() - 1) as nat,
        title: label((snake.len() - 1) as nat),
        sprites: sprites(board_area(area), snake, apple),
    }
}

/// On an area that is large enough the whole frame lies on the area: the
/// border, and both columns of every glyph, whatever state the game is in.
pub proof fn lemma_frame_inside(area: Area, s: GameState)
    requires
        area.bounded(),
        area.fits(),
        s.wf(),
    ensures
        ({
            let p = picture(area, s.snake, s.apple);
            &&& area.x <= p.border.x
            &&& area.y <= p.border.y
            &&& p.border.x + p.border.width <= area.x + area.width
            &&& p.border.y + p.border.height <= area.y + area.height
            &&& p.sprites.len() == s.snake.len() + 1
            &&& forall|i: int|
                0 <= i < p.sprites.len() ==> area.covers(
                    (#[trigger] p.sprites[i]).x as int,
                    p.sprites[i].y as int,
                ) && area.covers(p.sprites[i].x + 1, p.sprites[i].y as int)
        }),
{
    lemma_snake_within_bounds(s);
}

impl Glyph {
    /// The two characters of each glyph.
    pub open spec fn text(self) -> Seq<char> {
        match self {
            Glyph::Apple => seq!['#', '#'],
            Glyph::Segment => seq!['\u{2588}', '\u{2588}'],
        }
    }

    /// Returns the two characters that are painted for this glyph.
    pub fn symbol(&self) -> (s: &'static str)
        ensures
            s@ == self.text(),
    {
        proof {
            reveal_strlit("##");
            reveal_strlit("\u{2588}\u{2588}");
        }
        match self {
            Glyph::Apple => "##",
            Glyph::Segment => "\u{2588}\u{2588}",
        }
    }
}

/// Returns the text of one decimal digit.
fn digit_str(d: usize) -> (s: &'static str)
    requires
        d < 10,
    ensures
        s@ == seq![digit(d as nat)],
{
    proof {
        reveal_strlit("0");
        reveal_strlit("1");
        reveal_strlit("2");
        reveal_strlit("3");
        reveal_strlit("4");
        reveal_strlit("5");
        reveal_strlit("6");
        reveal_strlit("7");
        reveal_strlit("8");
        reveal_strlit("9");
    }
    if d == 0 {
        "0"
    } else if d == 1 {
        "1"
    } else if d == 2 {
        "2"
    } else if d == 3 {
        "3"
    } else if d == 4 {
        "4"
    } else if d == 5 {
        "5"
    } else if d == 6 {
        "6"
    } else if d == 7 {
        "7"
    } else if d == 8 {
        "8"
    } else {
        "9"
    }
}

/// Writes a number in decimal digits at the end of `text`.
fn push_decimal(text: &mut String, n: usize)
    ensures
        final(text)@ == old(text)@ + decimal(n as nat),
    decreases n,
{
    if n >= 10 {
        push_decimal(text, n / 10);
    }
    text.append(digit_str(n % 10));
}

/// Returns the title for a score.
pub fn score_label(score: usize) -> (title: String)
    ensures
        title@ == label(score as nat),
{
    proof {
        reveal_strlit(" Score: ");
        reveal_strlit(" ");
    }
    let mut title = String::from_str(" Score: ");
    push_decimal(&mut title, score);
    title.append(" ");
    assert(title@ =~= label(score as nat));
    title
}

/// Lays out the frame for a snake and an apple on `area`.
///
/// Fails with `TerminalTooSmall` where the area has less than 44 columns or
/// less than 22 rows.
pub(crate) fn compose(area: Area, snake: &Vec<(u16, u16)>, apple: (u16, u16)) -> (result: Result<
    Scene,
    GameError,
>)
    requires
        area.bounded(),
        snake@.len() >= 1,
        apple.0 <= BOARD_SIZE && apple.1 <= BOARD_SIZE,
        forall|i: int|
            0 <= i < snake@.len() ==> (#[trigger] snake@[i]).0 <= BOARD_SIZE && snake@[i].1
                <= BOARD_SIZE,
    ensures
        result is Ok <==> area.fits(),
        result matches Err(e) ==> e == GameError::TerminalTooSmall,
        result matches Ok(scene) ==> scene@ == picture(area, snake@, apple),
{
    if area.width < MIN_WIDTH || area.height < MIN_HEIGHT {
        return Err(GameError::TerminalTooSmall);
    }
    let board_rect = rect(
        area.x + (area.width / 2).saturating_sub(BOARD_SIZE),
        area.y + (area.height / 2).saturating_sub(BOARD_SIZE / 2),
        (BOARD_SIZE - 1) * 2,
        BOARD_SIZE,
    );
    let border_rect = rect(
        board_rect.x - 1,
        board_rect.y - 1,
        board_rect.width + 4,
        board_rect.height + 2,
    );
    let score = snake.len() - 1;
    let title = score_label(score);

    let mut painted: Vec<Sprite> = Vec::new();
    let (x, y) = apple;
    painted.push(Sprite { x: (x * 2) + board_rect.x, y: y + board_rect.y, glyph: Glyph::Apple });

    let mut i: usize = 0;
    while i < snake.len()
        invariant
            i <= snake.len(),
            board_rect == board_area(area),
            area.bounded(),
            area.fits(),
            forall|k: int|
                0 <= k < snake@.len() ==> (#[trigger] snake@[k]).0 <= BOARD_SIZE && snake@[k].1
                    <= BOARD_SIZE,
            painted@ == sprites(board_rect, snake@.take(i as int), apple),
        decreases snake.len() - i,
    {
        let (x, y) = snake[i];
        painted.push(
            Sprite { x: (x * 2) + board_rect.x, y: y + board_rect.y, glyph: Glyph::Segment },
        );
        assert(painted@ =~= sprites(board_rect, snake@.take(i + 1), apple));
        i += 1;
    }
    assert(snake@.take(i as int) =~= snake@);
    Ok(Scene { border: border_rect, board: board_rect, score, title, sprites: painted })
}

} // verus!
