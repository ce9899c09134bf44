//! Outline emission: glyph geometry streamed as path commands into a sink.
//!
//! An outline program is a big-endian `u16` command count followed by that
//! many tagged commands. Tag 0 is a move (x, y), tag 1 a line (x, y) and tag 2
//! a quadratic curve (control x, control y, x, y); every coordinate is a
//! big-endian `i16`. A program is valid when it starts with a move, never has
//! two moves in a row and does not end with a move, so that each contour is
//! one move followed by at least one segment.
use crate::parser::{u16_at, Stream};
use vstd::prelude::*;

verus! {

/// One path command.
#[derive(Clone, Copy, PartialEq, Eq, Debug, Structural)]
pub enum OutlineCommand {
    MoveTo(i32, i32),
    LineTo(i32, i32),
    QuadTo(i32, i32, i32, i32),
}

/// A consumer of path commands.
pub trait OutlineBuilder {
    /// The commands received so far.
    spec fn commands(&self) -> Seq<OutlineCommand>;

    /// Starts a new contour at (x, y).
    fn move_to(&mut self, x: i32, y: i32)
        ensures
            final(self).commands() == old(self).commands().push(OutlineCommand::MoveTo(x, y)),
    ;

    /// Adds a straight segment to (x, y).
    fn line_to(&mut self, x: i32, y: i32)
        ensures
            final(self).commands() == old(self).commands().push(OutlineCommand::LineTo(x, y)),
    ;

    /// Adds a quadratic curve with control point (cx, cy) ending at (x, y).
    fn quad_to(&mut self, cx: i32, cy: i32, x: i32, y: i32)
        ensures
            final(self).commands() == old(self).commands().push(
                OutlineCommand::QuadTo(cx, cy, x, y),
            ),
    ;
}

/// A sink that keeps every command it receives, in order.
pub struct OutlineRecorder {
    pub commands: Vec<OutlineCommand>,
}

impl OutlineRecorder {
    /// A recorder that has received nothing.
    pub fn new() -> (r: OutlineRecorder)
        ensures
            r.commands() == Seq::<OutlineCommand>::empty(),
    {
        OutlineRecorder { commands: Vec::new() }
    }
}

impl OutlineBuilder for OutlineRecorder {
    open spec fn commands(&self) -> Seq<OutlineCommand> {
        self.commands@
    }

    fn move_to(&mut self, x: i32, y: i32) {
        self.commands.push(OutlineCommand::MoveTo(x, y));
    }

    fn line_to(&mut self, x: i32, y: i32) {
        self.commands.push(OutlineCommand::LineTo(x, y));
    }

    fn quad_to(&mut self, cx: i32, cy: i32, x: i32, y: i32) {
        self.commands.push(OutlineCommand::QuadTo(cx, cy, x, y));
    }
}

/// The big-endian `i16` at byte `i` of `d`, widened.
pub open spec fn coord_at(d: Seq<u8>, i: int) -> i32 {
    (u16_at(d, i) as i16) as i32
}

/// The command encoded at byte `pos` of `d` and the position after it, or
/// `None` when the tag is unknown or the command is cut short.
pub open spec fn decode_command(d: Seq<u8>, pos: int) -> Option<(OutlineCommand, int)> {
    if pos < 0 || pos >= d.len() {
        None
    } else if d[pos] == 0 && pos + 5 <= d.len() {
        Some((OutlineCommand::MoveTo(coord_at(d, pos + 1), coord_at(d, pos + 3)), pos + 5))
    } else if d[pos] == 1 && pos + 5 <= d.len() {
        Some((OutlineCommand::LineTo(coord_at(d, pos + 1), coord_at(d, pos + 3)), pos + 5))
    } else if d[pos] == 2 && pos + 9 <= d.len() {
        Some(
            (
                OutlineCommand::QuadTo(
                    coord_at(d, pos + 1),
                    coord_at(d, pos + 3),
                    coord_at(d, pos + 5),
                    coord_at(d, pos + 7),
                ),
                pos + 9,
            ),
        )
    } else {
        None
    }
}

/// Whether `c` may come after `prev` (`None` at the start of the program):
/// a program starts with a move and never has two moves in a row.
pub open spec fn may_follow(prev: Option<OutlineCommand>, c: OutlineCommand) -> bool {
    match prev {
        None => c is MoveTo,
        Some(p) => !(p is MoveTo && c is MoveTo),
    }
}

/// Whether a program may end after `prev`: not right after a move.
pub open spec fn may_end(prev: Option<OutlineCommand>) -> bool {
    match prev {
        None => true,
        Some(p) => !(p is MoveTo),
    }
}

/// Walks `k` commands from byte `pos`, `prev` being the command before them:
/// the commands emitted before the walk stops, and whether it reached the end
/// of a valid program.
pub open spec fn walk(d: Seq<u8>, pos: int, k: nat, prev: Option<OutlineCommand>) -> (
    Seq<OutlineCommand>,
    bool,
)
    decreases k,
{
    if k == 0 {
        (Seq::empty(), may_end(prev))
    } else {
        match decode_command(d, pos) {
            None => (Seq::empty(), false),
            Some(p) => if may_follow(prev, p.0) {
                let rest = walk(d, p.1, (k - 1) as nat, Some(p.0));
                (seq![p.0] + rest.0, rest.1)
            } else {
                (Seq::empty(), false)
            },
        }
    }
}

/// The commands an outline program emits, and whether it is valid.
pub open spec fn outline_program(d: Seq<u8>) -> (Seq<OutlineCommand>, bool) {
    if d.len() < 2 {
        (Seq::empty(), false)
    } else {
        walk(d, 2, u16_at(d, 0) as nat, None)
    }
}

/// Each contour of `cmds` starts with exactly one move: the first command is
/// a move and no move directly follows another.
pub open spec fn contours_well_formed(cmds: Seq<OutlineCommand>) -> bool {
    &&& cmds.len() > 0 ==> cmds[0] is MoveTo
    &&& forall|i: int|
        0 <= i < cmds.len() - 1 && #[trigger] cmds[i] is MoveTo ==> !(cmds[i + 1] is MoveTo)
}

/// Reads one command, moving past it; `None` when it is unknown or cut short.
fn read_command(s: &mut Stream) -> (r: Option<OutlineCommand>)
    requires
        old(s).wf(),
    ensures
        final(s).wf(),
        final(s).bytes() == old(s).bytes(),
        decode_command(old(s).bytes(), old(s).pos()) is None ==> r is None,
        decode_command(old(s).bytes(), old(s).pos()) is Some ==> r == Some(
            decode_command(old(s).bytes(), old(s).pos())->Some_0.0,
        ) && final(s).pos() == decode_command(old(s).bytes(), old(s).pos())->Some_0.1,
{
    let tag = match s.read_u8() {
        Ok(t) => t,
        Err(_) => return None,
    };
    if tag > 2 {
        return None;
    }
    let a = match s.read_i16() {
        Ok(v) => v as i32,
        Err(_) => return None,
    };
    let b = match s.read_i16() {
        Ok(v) => v as i32,
        Err(_) => return None,
    };
    if tag == 0 {
        return Some(OutlineCommand::MoveTo(a, b));
    } else if tag == 1 {
        return Some(OutlineCommand::LineTo(a, b));
    }
    let c = match s.read_i16() {
        Ok(v) => v as i32,
        Err(_) => return None,
    };
    let e = match s.read_i16() {
        Ok(v) => v as i32,
        Err(_) => return None,
    };
    Some(OutlineCommand::QuadTo(a, b, c, e))
}

/// Streams the commands of an outline program into `builder`, in order. On an
/// invalid program it stops before the first command that breaks it and
/// returns `false`.
pub fn outline<B: OutlineBuilder>(data: &[u8], builder: &mut B) -> (r: bool)
    ensures
        final(builder).commands() == old(builder).commands() + outline_program(data@).0,
        r == outline_program(data@).1,
{
    let mut s = Stream::new(data);
    let count = match s.read_u16() {
        Ok(c) => c,
        Err(_) => {
            assert(old(builder).commands() + Seq::<OutlineCommand>::empty() =~= old(
                builder,
            ).commands());
            return false;
        },
    };
    let ghost d = data@;
    let ghost start = old(builder).commands();
    let mut prev: Option<OutlineCommand> = None;
    let mut k: u16 = 0;
    while k < count
        invariant
            s.wf(),
            s.bytes() == d,
            d == data@,
            k <= count,
            count == u16_at(d, 0),
            d.len() >= 2,
            ({
                let rest = walk(d, s.pos(), (count - k) as nat, prev);
                &&& outline_program(d).0 == builder.commands().subrange(
                    start.len() as int,
                    builder.commands().len() as int,
                ) + rest.0
                &&& outline_program(d).1 == rest.1
            }),
            start == old(builder).commands(),
            start.len() <= builder.commands().len(),
            builder.commands().subrange(0, start.len() as int) == start,
        decreases count - k,
    {
        let ghost pos = s.pos();
        let ghost before = builder.commands();
        let c = match read_command(&mut s) {
            Some(c) => c,
            None => {
                assert(walk(d, pos, (count - k) as nat, prev).0 =~= Seq::<OutlineCommand>::empty());
                assert(outline_program(d).0 =~= before.subrange(
                    start.len() as int,
                    before.len() as int,
                ));
                assert(before =~= start + outline_program(d).0);
                    return false;
            },
        };
        let ok = match prev {
            None => match c {
                OutlineCommand::MoveTo(_, _) => true,
                _ => false,
            },
            Some(OutlineCommand::MoveTo(_, _)) => match c {
                OutlineCommand::MoveTo(_, _) => false,
                _ => true,
            },
            Some(_) => true,
        };
        if !ok {
            assert(walk(d, pos, (count - k) as nat, prev).0 =~= Seq::<OutlineCommand>::empty());
            assert(outline_program(d).0 =~= before.subrange(
                start.len() as int,
                before.len() as int,
            ));
            assert(before =~= start + outline_program(d).0);
            return false;
        }
        match c {
            OutlineCommand::MoveTo(x, y) => builder.move_to(x, y),
            OutlineCommand::LineTo(x, y) => builder.line_to(x, y),
            OutlineCommand::QuadTo(cx, cy, x, y) => builder.quad_to(cx, cy, x, y),
        }
        assert(builder.commands().subrange(start.len() as int, builder.commands().len() as int)
            =~= before.subrange(start.len() as int, before.len() as int).push(c));
        assert(builder.commands().subrange(0, start.len() as int) =~= before.subrange(
            0,
            start.len() as int,
        ));
        prev = Some(c);
        k = k + 1;
    }
    let ghost fin = builder.commands();
    assert(fin =~= start + outline_program(d).0);
    match prev {
        Some(OutlineCommand::MoveTo(_, _)) => false,
        _ => true,
    }
}

/// What a walk emits starts with a command that may follow `prev`, and never
/// has two moves in a row.
proof fn lemma_walk_well_formed(d: Seq<u8>, pos: int, k: nat, prev: Option<OutlineCommand>)
    ensures
        ({
            let w = walk(d, pos, k, prev).0;
            &&& w.len() > 0 ==> may_follow(prev, w[0])
            &&& forall|i: int|
                0 <= i < w.len() - 1 && #[trigger] w[i] is MoveTo ==> !(w[i + 1] is MoveTo)
        }),
    decreases k,
{
    if k > 0 {
        if let Some(p) = decode_command(d, pos) {
            if may_follow(prev, p.0) {
                lemma_walk_well_formed(d, p.1, (k - 1) as nat, Some(p.0));
                let rest = walk(d, p.1, (k - 1) as nat, Some(p.0)).0;
                let w = seq![p.0] + rest;
                assert(walk(d, pos, k, prev).0 == w);
                assert forall|i: int| 0 <= i < w.len() - 1 && #[trigger] w[i] is MoveTo implies !(
                w[i + 1] is MoveTo) by {
                    if i > 0 {
                        assert(w[i] == rest[i - 1]);
                        assert(w[i + 1] == rest[i]);
                    } else {
                        assert(w[1] == rest[0]);
                    }
                }
            }
        }
    }
}

/// Whatever the program, valid or not, the commands it emits form contours
/// that each start with exactly one move.
pub proof fn lemma_outline_well_formed(d: Seq<u8>)
    ensures
        contours_well_formed(outline_program(d).0),
{
    if d.len() >= 2 {
        lemma_walk_well_formed(d, 2, u16_at(d, 0) as nat, None);
    }
}

} // verus!
