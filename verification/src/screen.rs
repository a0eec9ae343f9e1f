//! What the picture of a round is made of: where things go on the screen,
//! and which picture shows what.

use crate::model::opposite;
use crate::world::{Direction, SnakeCell, World};
use vstd::prelude::*;

verus! {

/// Pixels between two lines of text.
pub const LINE_INTERVAL: u32 = 10;

/// How far from the right edge of the window the score begins.
pub const SCORE_INSET: u32 = 150;

/// How far from the upper edge of the window the score begins.
pub const SCORE_TOP: u32 = 50;

/// From this width of the window on, text is set in the large size.
pub const WIDE_WINDOW: u32 = 1536;

/// Bytes to a pixel: red, green, blue and how opaque it is.
pub const PIXEL: usize = 4;

/// The picture that shows a segment of the snake: what kind of picture, and
/// which of that kind.
#[derive(Clone, Copy, Debug, PartialEq, Eq, Structural)]
pub enum SnakePicture {
    /// One of four.
    HeadStraight(usize),
    /// One of eight.
    HeadTurn(usize),
    /// One of eight.
    Body(usize),
    /// One of four.
    Tail(usize),
}

/// Where on the screen the field and the score lie.
#[derive(Clone, Copy, Debug, PartialEq, Eq, Structural)]
pub struct Layout {
    /// The side of a cell.
    pub cell: u32,
    /// What is left of the field, wall and all.
    pub border_x: u32,
    /// What is above the field, wall and all.
    pub border_y: u32,
    pub score_x: u32,
    pub score_y: u32,
    /// The size of the text, in points.
    pub font_size: u16,
}

/// How wide and how high something is, in pixels.
#[derive(Clone, Copy, Debug, PartialEq, Eq, Structural)]
pub struct Size {
    pub width: u32,
    pub height: u32,
}

/// A place on the screen, in pixels.
#[derive(Clone, Copy, Debug, PartialEq, Eq, Structural)]
pub struct Place {
    pub x: u32,
    pub y: u32,
}

/// Why lines of text do not fit the window.
#[derive(Clone, Copy, Debug, PartialEq, Eq, Structural)]
pub enum Misfit {
    /// Together the lines are as high as the window, or higher.
    TooMany,
    /// A line is as wide as the window, or wider.
    TooLong,
}

impl SnakePicture {
    /// The picture of a head: one of the straight ones where the snake has
    /// not turned, else the one for the turn.
    pub open spec fn spec_head(cell: SnakeCell) -> SnakePicture {
        if cell.dir == cell.prev_dir {
            SnakePicture::HeadStraight(
                match cell.dir {
                    Direction::Down => 0,
                    Direction::Up => 1,
                    Direction::Left => 2,
                    Direction::Right => 3,
                },
            )
        } else {
            SnakePicture::HeadTurn(
                match (cell.dir, cell.prev_dir) {
                    (Direction::Left, Direction::Down) => 0,
                    (Direction::Right, Direction::Down) => 1,
                    (Direction::Left, Direction::Up) => 2,
                    (Direction::Right, Direction::Up) => 3,
                    (Direction::Up, Direction::Right) => 4,
                    (Direction::Down, Direction::Right) => 5,
                    (Direction::Up, Direction::Left) => 6,
                    _ => 7,
                },
            )
        }
    }

    /// The picture of a segment between head and tail: one of four straight
    /// ones, by heading and turn about, or one of four bent ones.
    pub open spec fn spec_body(cell: SnakeCell) -> SnakePicture {
        SnakePicture::Body(
            match (cell.dir, cell.prev_dir) {
                (Direction::Up, Direction::Up) => if cell.even {
                    1
                } else {
                    0
                },
                (Direction::Down, Direction::Down) => if cell.even {
                    0
                } else {
                    1
                },
                (Direction::Left, Direction::Left) => if cell.even {
                    3
                } else {
                    2
                },
                (Direction::Right, Direction::Right) => if cell.even {
                    2
                } else {
                    3
                },
                (Direction::Up, Direction::Right) => 4,
                (Direction::Left, Direction::Down) => 4,
                (Direction::Up, Direction::Left) => 5,
                (Direction::Right, Direction::Down) => 5,
                (Direction::Down, Direction::Right) => 6,
                (Direction::Left, Direction::Up) => 6,
                _ => 7,
            },
        )
    }

    /// The picture of a tail.
    pub open spec fn spec_tail(cell: SnakeCell) -> SnakePicture {
        SnakePicture::Tail(
            match cell.dir {
                Direction::Up => 0,
                Direction::Down => 1,
                Direction::Left => 2,
                Direction::Right => 3,
            },
        )
    }

    /// The picture is one that there is.
    pub open spec fn spec_exists(self) -> bool {
        match self {
            SnakePicture::HeadStraight(i) => i < 4,
            SnakePicture::HeadTurn(i) => i < 8,
            SnakePicture::Body(i) => i < 8,
            SnakePicture::Tail(i) => i < 4,
        }
    }

    /// The picture of a head that has not turned right round.
    #[verifier::when_used_as_spec(spec_head)]
    pub fn head(cell: SnakeCell) -> (p: SnakePicture)
        requires
            !opposite(cell.dir, cell.prev_dir),
        ensures
            p == SnakePicture::spec_head(cell),
            p.spec_exists(),
    {
        if cell.dir == cell.prev_dir {
            SnakePicture::HeadStraight(
                match cell.dir {
                    Direction::Down => 0,
                    Direction::Up => 1,
                    Direction::Left => 2,
                    Direction::Right => 3,
                },
            )
        } else {
            SnakePicture::HeadTurn(
                match (cell.dir, cell.prev_dir) {
                    (Direction::Left, Direction::Down) => 0,
                    (Direction::Right, Direction::Down) => 1,
                    (Direction::Left, Direction::Up) => 2,
                    (Direction::Right, Direction::Up) => 3,
                    (Direction::Up, Direction::Right) => 4,
                    (Direction::Down, Direction::Right) => 5,
                    (Direction::Up, Direction::Left) => 6,
                    _ => 7,
                },
            )
        }
    }

    /// The picture of a segment between head and tail that does not head
    /// back.
    #[verifier::when_used_as_spec(spec_body)]
    pub fn body(cell: SnakeCell) -> (p: SnakePicture)
        requires
            !opposite(cell.dir, cell.prev_dir),
        ensures
            p == SnakePicture::spec_body(cell),
            p.spec_exists(),
    {
        SnakePicture::Body(
            match (cell.dir, cell.prev_dir) {
                (Direction::Up, Direction::Up) => if cell.even {
                    1
                } else {
                    0
                },
                (Direction::Down, Direction::Down) => if cell.even {
                    0
                } else {
                    1
                },
                (Direction::Left, Direction::Left) => if cell.even {
                    3
                } else {
                    2
                },
                (Direction::Right, Direction::Right) => if cell.even {
                    2
                } else {
                    3
                },
                (Direction::Up, Direction::Right) => 4,
                (Direction::Left, Direction::Down) => 4,
                (Direction::Up, Direction::Left) => 5,
                (Direction::Right, Direction::Down) => 5,
                (Direction::Down, Direction::Right) => 6,
                (Direction::Left, Direction::Up) => 6,
                _ => 7,
            },
        )
    }

    /// The picture of a tail.
    #[verifier::when_used_as_spec(spec_tail)]
    pub fn tail(cell: SnakeCell) -> (p: SnakePicture)
        ensures
            p == SnakePicture::spec_tail(cell),
            p.spec_exists(),
    {
        SnakePicture::Tail(
            match cell.dir {
                Direction::Up => 0,
                Direction::Down => 1,
                Direction::Left => 2,
                Direction::Right => 3,
            },
        )
    }

    /// The pictures of a snake, head first: there is one for every segment
    /// of a round in play whose head has not turned right round.
    pub fn of_snake(world: &World) -> (pictures: Vec<SnakePicture>)
        requires
            world@.wf(),
            !opposite(world@.snake[0].dir, world@.snake[0].prev_dir),
        ensures
            pictures@.len() == world@.snake.len(),
            forall|i: int|
                #![trigger pictures@[i]]
                0 <= i < pictures@.len() ==> pictures@[i].spec_exists() && pictures@[i] == if i
                    == 0 {
                    SnakePicture::spec_head(world@.snake[i])
                } else if i + 1 < pictures@.len() {
                    SnakePicture::spec_body(world@.snake[i])
                } else {
                    SnakePicture::spec_tail(world@.snake[i])
                },
    {
        let snake = world.snake();
        let mut pictures: Vec<SnakePicture> = Vec::new();
        pictures.push(SnakePicture::head(snake[0]));
        let len = snake.len();
        let mut i: usize = 1;
        while i + 1 < len
            invariant
                world@.wf(),
                snake@ == world@.snake,
                len == snake@.len(),
                1 <= i < len,
                pictures@.len() == i,
                forall|k: int|
                    #![trigger pictures@[k]]
                    0 <= k < i ==> pictures@[k].spec_exists() && pictures@[k] == if k == 0 {
                        SnakePicture::spec_head(snake@[k])
                    } else {
                        SnakePicture::spec_body(snake@[k])
                    },
            decreases len - i,
        {
            pictures.push(SnakePicture::body(snake[i]));
            i += 1;
        }
        pictures.push(SnakePicture::tail(snake[i]));
        pictures
    }
}

impl Layout {
    /// The layout for a field of side `field_size`, with a wall of one cell
    /// around it, in a window of the given size: the cells are as large as
    /// fits, the field lies in the middle, and the score in the upper right
    /// corner.
    pub fn new(field_size: u32, width: u32, height: u32) -> (l: Layout)
        requires
            field_size + 2 <= u32::MAX,
            width >= SCORE_INSET,
        ensures
            l.cell == (if width <= height {
                width as int
            } else {
                height as int
            }) / (field_size + 2),
            l.cell * (field_size + 2) <= width,
            l.cell * (field_size + 2) <= height,
            l.border_x == (width - l.cell * (field_size + 2)) / 2,
            l.border_y == (height - l.cell * (field_size + 2)) / 2,
            l.score_x == width - SCORE_INSET,
            l.score_y == SCORE_TOP,
            l.font_size == if width >= WIDE_WINDOW {
                72u16
            } else {
                36u16
            },
    {
        let square = if width <= height {
            width
        } else {
            height
        };
        let field_plus_wall = field_size + 2;
        let cell = square / field_plus_wall;
        assert(cell * field_plus_wall <= square) by (nonlinear_arith)
            requires
                cell == square / field_plus_wall,
                field_plus_wall > 0,
        ;
        Layout {
            cell,
            border_x: (width - cell * field_plus_wall) / 2,
            border_y: (height - cell * field_plus_wall) / 2,
            score_x: width - SCORE_INSET,
            score_y: SCORE_TOP,
            font_size: if width >= WIDE_WINDOW {
                72
            } else {
                36
            },
        }
    }

    /// Where the upper left corner of the cell `(x, y)` lies; the wall
    /// around the field lies on the cells with a coordinate of zero or of one
    /// more than the side of the field.
    pub fn corner(&self, x: u32, y: u32) -> (at: Place)
        requires
            self.border_x + self.cell * x <= u32::MAX,
            self.border_y + self.cell * y <= u32::MAX,
        ensures
            at.x == self.border_x + self.cell * x,
            at.y == self.border_y + self.cell * y,
    {
        Place { x: self.border_x + self.cell * x, y: self.border_y + self.cell * y }
    }
}

/// The height of the first `n` of the lines, each with the gap to the next.
pub open spec fn height_of(sizes: Seq<Size>, n: int) -> int
    decreases n,
{
    if n <= 0 {
        0
    } else {
        height_of(sizes, n - 1) + sizes[n - 1].height + LINE_INTERVAL
    }
}

/// Where the line at index `i` goes: in the middle from left to right, and
/// below the lines before it, all lines together in the middle from top to
/// bottom.
pub open spec fn place_of(sizes: Seq<Size>, width: int, height: int, i: int) -> Place {
    let total = height_of(sizes, sizes.len() as int) - LINE_INTERVAL;
    Place {
        x: ((width - sizes[i].width) / 2) as u32,
        y: ((height - total) / 2 + height_of(sizes, i)) as u32,
    }
}

/// The lines fit the window: together they are less high, and each is less
/// wide.
pub open spec fn lines_fit(sizes: Seq<Size>, width: int, height: int) -> Option<Misfit> {
    if height_of(sizes, sizes.len() as int) - LINE_INTERVAL >= height {
        Some(Misfit::TooMany)
    } else if exists|i: int| 0 <= i < sizes.len() && (#[trigger] sizes[i]).width >= width {
        Some(Misfit::TooLong)
    } else {
        None
    }
}

/// The height of lines does not fall as more are counted.
proof fn height_grows(sizes: Seq<Size>, i: int, j: int)
    requires
        i <= j <= sizes.len(),
    ensures
        height_of(sizes, i) <= height_of(sizes, j),
        j > 0 ==> LINE_INTERVAL <= height_of(sizes, j),
    decreases j,
{
    if j > 0 {
        assert(sizes[j - 1].height >= 0);
        if i < j {
            height_grows(sizes, i, j - 1);
        } else {
            height_grows(sizes, i - 1, j - 1);
        }
    }
}

/// Where lines of text of the given sizes go in a window of the given size,
/// or why they do not fit.
pub fn place_lines(sizes: &Vec<Size>, width: u32, height: u32) -> (r: Result<Vec<Place>, Misfit>)
    requires
        sizes@.len() > 0,
    ensures
        match r {
            Ok(places) => {
                &&& lines_fit(sizes@, width as int, height as int) is None
                &&& places@.len() == sizes@.len()
                &&& forall|i: int|
                    0 <= i < places@.len() ==> #[trigger] places@[i] == place_of(
                        sizes@,
                        width as int,
                        height as int,
                        i,
                    )
            },
            Err(why) => lines_fit(sizes@, width as int, height as int) == Some(why),
        },
{
    let mut total: u64 = 0;
    let mut i: usize = 0;
    while i < sizes.len()
        invariant
            i <= sizes@.len(),
            total == height_of(sizes@, i as int),
            total < height as u64 + LINE_INTERVAL as u64,
        decreases sizes@.len() - i,
    {
        total = total + sizes[i].height as u64 + LINE_INTERVAL as u64;
        i += 1;
        if total >= height as u64 + LINE_INTERVAL as u64 {
            proof {
                height_grows(sizes@, i as int, sizes@.len() as int);
            }
            return Err(Misfit::TooMany);
        }
    }
    proof {
        height_grows(sizes@, 0, sizes@.len() as int);
    }
    let pad = (height as u64 - (total - LINE_INTERVAL as u64)) / 2;
    let mut places: Vec<Place> = Vec::new();
    let mut below: u64 = 0;
    let mut i: usize = 0;
    while i < sizes.len()
        invariant
            i <= sizes@.len(),
            sizes@.len() > 0,
            total == height_of(sizes@, sizes@.len() as int),
            total < height as u64 + LINE_INTERVAL as u64,
            total >= LINE_INTERVAL,
            pad == (height as u64 - (total - LINE_INTERVAL as u64)) / 2,
            below == height_of(sizes@, i as int),
            places@.len() == i,
            forall|k: int| 0 <= k < i ==> (#[trigger] sizes@[k]).width < width,
            forall|k: int|
                0 <= k < i ==> #[trigger] places@[k] == place_of(
                    sizes@,
                    width as int,
                    height as int,
                    k,
                ),
        decreases sizes@.len() - i,
    {
        let size = sizes[i];
        if size.width >= width {
            return Err(Misfit::TooLong);
        }
        proof {
            height_grows(sizes@, i as int + 1, sizes@.len() as int);
        }
        places.push(Place { x: (width - size.width) / 2, y: (pad + below) as u32 });
        below = below + size.height as u64 + LINE_INTERVAL as u64;
        i += 1;
    }
    Ok(places)
}

/// Makes the black of a picture see-through: of every pixel, which is four
/// bytes, the last becomes 0 where the three before it are 0, and 255
/// elsewhere. Bytes left over at the end stay as they are.
pub fn cut_out(data: &mut [u8])
    ensures
        final(data)@.len() == old(data)@.len(),
        forall|i: int|
            #![trigger final(data)@[i]]
            0 <= i < old(data)@.len() ==> final(data)@[i] == if i % 4 == 3 {
                if old(data)@[i - 3] == 0 && old(data)@[i - 2] == 0 && old(data)@[i - 1] == 0 {
                    0u8
                } else {
                    255u8
                }
            } else {
                old(data)@[i]
            },
{
    let len = data.len();
    let pixels = len / PIXEL;
    let mut p: usize = 0;
    while p < pixels
        invariant
            len == data@.len(),
            pixels == len / 4,
            p <= pixels,
            data@.len() == old(data)@.len(),
            forall|i: int|
                #![trigger data@[i]]
                0 <= i < data@.len() ==> data@[i] == if i % 4 == 3 && i < 4 * p {
                    if old(data)@[i - 3] == 0 && old(data)@[i - 2] == 0 && old(data)@[i - 1] == 0 {
                        0u8
                    } else {
                        255u8
                    }
                } else {
                    old(data)@[i]
                },
        decreases pixels - p,
    {
        let at = PIXEL * p;
        if data[at] == 0 && data[at + 1] == 0 && data[at + 2] == 0 {
            data[at + 3] = 0;
        } else {
            data[at + 3] = 255;
        }
        p += 1;
    }
}

} // verus!
