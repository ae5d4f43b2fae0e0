//! A logger that draws each message as a coloured square on a frame buffer, one square
//! after the other, row by row, scrolling up when the screen is full.  The color tells
//! which paging operation was logged.
use vstd::prelude::*;
use vstd::string::StringSliceAdditionalSpecFns;
use crate::types::Address;

verus! {

pub const LOG_ALLOC_4KB: &'static str = "alloc_4kb";
pub const LOG_ALLOC_2MB: &'static str = "alloc_2mb";
pub const LOG_ALLOC_1GB: &'static str = "alloc_1gb";
pub const LOG_FREE_4KB: &'static str = "free_4kb";
pub const LOG_FREE_2MB: &'static str = "free_2mb";
pub const LOG_FREE_1GB: &'static str = "free_1gb";
pub const LOG_BORROW_2MB: &'static str = "borrow_2mb";
pub const LOG_BORROW_1GB: &'static str = "borrow_1gb";
pub const LOG_AGGREGATE_2MB: &'static str = "aggregate_2mb";
pub const LOG_AGGREGATE_1GB: &'static str = "aggregate_1gb";

/// The side of a square, in pixels.
pub const SQUARE_SIZE: usize = 10;

/// The bytes of a pixel.
pub const BYTES_PER_PIXEL: usize = 4;

/// The color of the square drawn for a message with the bytes `msg`; grey for a message
/// that names no paging operation.
pub open spec fn color_of(msg: Seq<u8>) -> u32 {
    if msg == LOG_ALLOC_4KB.spec_bytes() {
        0x00FF0000
    } else if msg == LOG_ALLOC_2MB.spec_bytes() {
        0x0000FF00
    } else if msg == LOG_ALLOC_1GB.spec_bytes() {
        0x000000FF
    } else if msg == LOG_FREE_4KB.spec_bytes() {
        0x00FF8080
    } else if msg == LOG_FREE_2MB.spec_bytes() {
        0x0080FF80
    } else if msg == LOG_FREE_1GB.spec_bytes() {
        0x008080FF
    } else if msg == LOG_BORROW_2MB.spec_bytes() {
        0x00FFFF00
    } else if msg == LOG_BORROW_1GB.spec_bytes() {
        0x00FF00FF
    } else if msg == LOG_AGGREGATE_2MB.spec_bytes() {
        0x0000FFFF
    } else if msg == LOG_AGGREGATE_1GB.spec_bytes() {
        0x00008080
    } else {
        0x00808080
    }
}

/// Whether two byte strings are equal.
fn same_bytes(a: &[u8], b: &[u8]) -> (r: bool)
    ensures
        r == (a@ == b@),
{
    if a.len() != b.len() {
        return false;
    }
    let mut i: usize = 0;
    while i < a.len()
        invariant
            i <= a.len(),
            a.len() == b.len(),
            forall|j: int| 0 <= j < i ==> a@[j] == b@[j],
        decreases a.len() - i,
    {
        if a[i] != b[i] {
            return false;
        }
        i = i + 1;
    }
    assert(a@ =~= b@);
    true
}

/// The colours of the paging messages: red, green and blue for allocations of 4KB, 2MB
/// and 1GB pages, their light shades for the frees, yellow and magenta for borrowing
/// 2MB and 1GB pages, cyan and dark cyan for aggregating them; no two of these messages
/// share a colour, and none has the grey of a message that names no paging operation.
pub proof fn law_message_colors()
    ensures
        color_of(LOG_ALLOC_4KB.spec_bytes()) == 0x00FF0000u32,
        color_of(LOG_ALLOC_2MB.spec_bytes()) == 0x0000FF00u32,
        color_of(LOG_ALLOC_1GB.spec_bytes()) == 0x000000FFu32,
        color_of(LOG_FREE_4KB.spec_bytes()) == 0x00FF8080u32,
        color_of(LOG_FREE_2MB.spec_bytes()) == 0x0080FF80u32,
        color_of(LOG_FREE_1GB.spec_bytes()) == 0x008080FFu32,
        color_of(LOG_BORROW_2MB.spec_bytes()) == 0x00FFFF00u32,
        color_of(LOG_BORROW_1GB.spec_bytes()) == 0x00FF00FFu32,
        color_of(LOG_AGGREGATE_2MB.spec_bytes()) == 0x0000FFFFu32,
        color_of(LOG_AGGREGATE_1GB.spec_bytes()) == 0x00008080u32,
        forall|msg: Seq<u8>|
            #![trigger color_of(msg)]
            msg.len() == 0 ==> color_of(msg) == 0x00808080u32,
{
    broadcast use vstd::string::group_string_axioms;

    reveal_strlit("alloc_4kb");
    reveal_strlit("alloc_2mb");
    reveal_strlit("alloc_1gb");
    reveal_strlit("free_4kb");
    reveal_strlit("free_2mb");
    reveal_strlit("free_1gb");
    reveal_strlit("borrow_2mb");
    reveal_strlit("borrow_1gb");
    reveal_strlit("aggregate_2mb");
    reveal_strlit("aggregate_1gb");
    assert(vstd::string::is_ascii(LOG_ALLOC_4KB));
    assert(vstd::string::is_ascii(LOG_ALLOC_2MB));
    assert(vstd::string::is_ascii(LOG_ALLOC_1GB));
    assert(vstd::string::is_ascii(LOG_FREE_4KB));
    assert(vstd::string::is_ascii(LOG_FREE_2MB));
    assert(vstd::string::is_ascii(LOG_FREE_1GB));
    assert(vstd::string::is_ascii(LOG_BORROW_2MB));
    assert(vstd::string::is_ascii(LOG_BORROW_1GB));
    assert(vstd::string::is_ascii(LOG_AGGREGATE_2MB));
    assert(vstd::string::is_ascii(LOG_AGGREGATE_1GB));
    assert(LOG_ALLOC_2MB.spec_bytes()[6] != LOG_ALLOC_4KB.spec_bytes()[6]);
    assert(LOG_ALLOC_1GB.spec_bytes()[6] != LOG_ALLOC_4KB.spec_bytes()[6]);
    assert(LOG_ALLOC_1GB.spec_bytes()[6] != LOG_ALLOC_2MB.spec_bytes()[6]);
    assert(LOG_FREE_2MB.spec_bytes()[5] != LOG_FREE_4KB.spec_bytes()[5]);
    assert(LOG_FREE_1GB.spec_bytes()[5] != LOG_FREE_4KB.spec_bytes()[5]);
    assert(LOG_FREE_1GB.spec_bytes()[5] != LOG_FREE_2MB.spec_bytes()[5]);
    assert(LOG_BORROW_1GB.spec_bytes()[7] != LOG_BORROW_2MB.spec_bytes()[7]);
    assert(LOG_AGGREGATE_1GB.spec_bytes()[10] != LOG_AGGREGATE_2MB.spec_bytes()[10]);
}

/// The color of the square drawn for `msg`.
pub fn log_color(msg: &str) -> (r: u32)
    ensures
        r == color_of(msg.spec_bytes()),
{
    let bytes = msg.as_bytes();
    if same_bytes(bytes, LOG_ALLOC_4KB.as_bytes()) {
        0x00FF0000
    } else if same_bytes(bytes, LOG_ALLOC_2MB.as_bytes()) {
        0x0000FF00
    } else if same_bytes(bytes, LOG_ALLOC_1GB.as_bytes()) {
        0x000000FF
    } else if same_bytes(bytes, LOG_FREE_4KB.as_bytes()) {
        0x00FF8080
    } else if same_bytes(bytes, LOG_FREE_2MB.as_bytes()) {
        0x0080FF80
    } else if same_bytes(bytes, LOG_FREE_1GB.as_bytes()) {
        0x008080FF
    } else if same_bytes(bytes, LOG_BORROW_2MB.as_bytes()) {
        0x00FFFF00
    } else if same_bytes(bytes, LOG_BORROW_1GB.as_bytes()) {
        0x00FF00FF
    } else if same_bytes(bytes, LOG_AGGREGATE_2MB.as_bytes()) {
        0x0000FFFF
    } else if same_bytes(bytes, LOG_AGGREGATE_1GB.as_bytes()) {
        0x00008080
    } else {
        0x00808080
    }
}

/// A move of the frame buffer's content `len` bytes long from `from` down to `to`.
#[derive(Clone, Copy, Debug, PartialEq, Eq, Structural)]
pub struct ScrollCopy {
    pub from: Address,
    pub to: Address,
    pub len: usize,
}

/// What to draw for one message: a square of `size` by `size` pixels of `color` whose
/// top-left pixel is at `origin`, rows `bytes_per_line` apart; then, if the screen is
/// full, the move that scrolls it up by a row of squares.
#[derive(Clone, Copy, Debug, PartialEq, Eq, Structural)]
pub struct LogSquare {
    pub color: u32,
    pub origin: Address,
    pub bytes_per_line: usize,
    pub size: usize,
    pub scroll: Option<ScrollCopy>,
}

/// The place of the next square on a frame buffer of `width` by `height` pixels at
/// `address`, whose lines are `bytes_per_line` apart.
pub struct FrameBufferLogger {
    address: Address,
    width: usize,
    height: usize,
    bytes_per_line: usize,
    current_x: usize,
    current_y: usize,
    enabled: bool,
}

/// Whether a frame buffer of this geometry can be addressed with room for a square
/// past its edges, and holds a row of squares.
pub open spec fn geometry_fits(address: Address, width: usize, height: usize, bytes_per_line: usize) -> bool {
    &&& height >= SQUARE_SIZE
    &&& height + SQUARE_SIZE <= usize::MAX
    &&& width + SQUARE_SIZE <= usize::MAX
    &&& (height + SQUARE_SIZE) * bytes_per_line + (width + SQUARE_SIZE) * BYTES_PER_PIXEL
        <= usize::MAX
    &&& address + (height + SQUARE_SIZE) * bytes_per_line + (width + SQUARE_SIZE)
        * BYTES_PER_PIXEL <= u64::MAX
}

impl FrameBufferLogger {
    pub closed spec fn address_spec(&self) -> Address {
        self.address
    }

    pub closed spec fn width_spec(&self) -> usize {
        self.width
    }

    pub closed spec fn height_spec(&self) -> usize {
        self.height
    }

    pub closed spec fn bytes_per_line_spec(&self) -> usize {
        self.bytes_per_line
    }

    /// The column of the next square, in pixels.
    pub closed spec fn cursor_x(&self) -> usize {
        self.current_x
    }

    /// The line of the next square, in pixels.
    pub closed spec fn cursor_y(&self) -> usize {
        self.current_y
    }

    pub closed spec fn is_enabled(&self) -> bool {
        self.enabled
    }

    pub closed spec fn wf(&self) -> bool {
        &&& geometry_fits(self.address, self.width, self.height, self.bytes_per_line)
        &&& self.current_x < self.width || self.current_x == 0
        &&& self.current_y < self.height
    }

    /// A logger that draws from the top-left corner.
    pub fn new(address: Address, width: usize, height: usize, bytes_per_line: usize) -> (r: Self)
        requires
            geometry_fits(address, width, height, bytes_per_line),
        ensures
            r.wf(),
            r.address_spec() == address,
            r.width_spec() == width,
            r.height_spec() == height,
            r.bytes_per_line_spec() == bytes_per_line,
            r.cursor_x() == 0,
            r.cursor_y() == 0,
            r.is_enabled(),
    {
        FrameBufferLogger {
            address,
            width,
            height,
            bytes_per_line,
            current_x: 0,
            current_y: 0,
            enabled: true,
        }
    }

    /// The same logger, drawing nothing from now on.
    pub fn disable(self) -> (r: Self)
        ensures
            !r.is_enabled(),
            r.address_spec() == self.address_spec(),
            r.width_spec() == self.width_spec(),
            r.height_spec() == self.height_spec(),
            r.bytes_per_line_spec() == self.bytes_per_line_spec(),
            r.cursor_x() == self.cursor_x(),
            r.cursor_y() == self.cursor_y(),
            self.wf() ==> r.wf(),
    {
        let mut s = self;
        s.enabled = false;
        s
    }

    /// The square to draw for `msg`, at the cursor, and moves the cursor one square to
    /// the right, or to the start of the next row of squares past the right edge; past
    /// the bottom the screen scrolls up a row of squares.  Nothing when disabled.
    pub fn next_square(&mut self, msg: &str) -> (r: Option<LogSquare>)
        requires
            old(self).wf(),
        ensures
            final(self).wf(),
            final(self).address_spec() == old(self).address_spec(),
            final(self).width_spec() == old(self).width_spec(),
            final(self).height_spec() == old(self).height_spec(),
            final(self).bytes_per_line_spec() == old(self).bytes_per_line_spec(),
            final(self).is_enabled() == old(self).is_enabled(),
            !old(self).is_enabled() ==> r is None && *final(self) == *old(self),
            old(self).is_enabled() ==> {
                let x = old(self).cursor_x() + SQUARE_SIZE;
                let wraps = x >= old(self).width_spec();
                let y = if wraps {
                    old(self).cursor_y() + SQUARE_SIZE
                } else {
                    old(self).cursor_y() as int
                };
                let scrolls = y >= old(self).height_spec();
                let bpl = old(self).bytes_per_line_spec();
                &&& r matches Some(sq) && {
                    &&& sq.color == color_of(msg.spec_bytes())
                    &&& sq.origin == old(self).address_spec() + old(self).cursor_y() * bpl
                        + old(self).cursor_x() * BYTES_PER_PIXEL
                    &&& sq.bytes_per_line == bpl
                    &&& sq.size == SQUARE_SIZE
                    &&& sq.scroll == if scrolls {
                        Some(
                            ScrollCopy {
                                from: (old(self).address_spec() + SQUARE_SIZE * bpl) as Address,
                                to: old(self).address_spec(),
                                len: ((old(self).height_spec() - SQUARE_SIZE) * bpl) as usize,
                            },
                        )
                    } else {
                        None::<ScrollCopy>
                    }
                }
                &&& final(self).cursor_x() == if wraps {
                    0
                } else {
                    x
                }
                &&& final(self).cursor_y() == if scrolls {
                    y - SQUARE_SIZE
                } else {
                    y
                }
            },
    {
        if !self.enabled {
            return None;
        }
        let color = log_color(msg);
        let bpl = self.bytes_per_line;
        proof {
            assert(self.current_y * bpl <= (self.height + SQUARE_SIZE) * bpl) by (nonlinear_arith)
                requires
                    self.current_y < self.height,
            ;
            assert(self.current_x <= self.width);
        }
        let origin = self.address + (self.current_y * bpl) as u64 + (self.current_x
            * BYTES_PER_PIXEL) as u64;
        self.current_x = self.current_x + SQUARE_SIZE;
        if self.current_x >= self.width {
            self.current_x = 0;
            self.current_y = self.current_y + SQUARE_SIZE;
        }
        let mut scroll = None;
        if self.current_y >= self.height {
            proof {
                assert(SQUARE_SIZE * bpl <= (self.height + SQUARE_SIZE) * bpl) by (nonlinear_arith);
                assert((self.height - SQUARE_SIZE) * bpl <= (self.height + SQUARE_SIZE) * bpl)
                    by (nonlinear_arith)
                    requires
                        self.height >= SQUARE_SIZE,
                ;
            }
            scroll = Some(
                ScrollCopy {
                    from: self.address + (SQUARE_SIZE * bpl) as u64,
                    to: self.address,
                    len: (self.height - SQUARE_SIZE) * bpl,
                },
            );
            self.current_y = self.current_y - SQUARE_SIZE;
        }
        Some(LogSquare { color, origin, bytes_per_line: bpl, size: SQUARE_SIZE, scroll })
    }
}

} // verus!
