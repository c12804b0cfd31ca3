//! The immediate-mode draw-state tracker.
//!
//! The tracker caches which shader program is bound, which color the color
//! uniform holds, which texture is bound, and the ambient coloring mode.
//! Each `ensure_*` operation reports whether the underlying binding call
//! must be issued, and skips it when the requested state is already
//! current. Every cache starts at an unset sentinel, so the first request
//! after construction always issues its call.
//!
//! [`DrawState::rect_commands`] sequences a whole rectangle draw: select
//! the coloring mode, bind what the draw source needs, issue the draw, and
//! restore the ambient coloring mode afterwards — callers never manage
//! coloring-mode state themselves.

use vstd::prelude::*;

use crate::color::Color;
use crate::shape::TextureColoring;
use crate::vec2::Vec2;

verus! {

/// The two linked shader programs: the rectangle/texture program and the
/// signed-distance program.
#[derive(Clone, Copy, Debug, PartialEq, Eq, Structural)]
pub enum ProgramKind {
    Rectangle,
    Sdf,
}

/// An opaque handle to a registered texture.
#[derive(Clone, Copy, Debug, PartialEq, Eq, Hash, Structural)]
pub struct TextureId(pub u32);

/// What fills a rectangle: a flat color or a registered texture.
#[derive(Clone, Copy, Debug, PartialEq, Eq, Structural)]
pub enum Draw {
    Color(Color),
    Texture(TextureId),
}

/// One GPU call that a rectangle draw issues, in order. The quad's
/// placement uniforms are written after any program bind and before the
/// draw, so they always reach the rectangle program.
#[derive(Clone, Copy, Debug, PartialEq, Eq, Structural)]
pub enum RectAction {
    UseProgram(ProgramKind),
    SetPlacement { position: Vec2, scale: Vec2 },
    SetColoring(TextureColoring),
    WriteColor(Color),
    BindTexture(TextureId),
    DrawQuad,
}


impl From<Color> for Draw {
    fn from(clr: Color) -> (r: Draw) {
        Draw::Color(clr)
    }
}

impl vstd::std_specs::convert::FromSpecImpl<Color> for Draw {
    open spec fn obeys_from_spec() -> bool {
        true
    }

    open spec fn from_spec(clr: Color) -> Draw {
        Draw::Color(clr)
    }
}

impl From<TextureId> for Draw {
    fn from(tid: TextureId) -> (r: Draw) {
        Draw::Texture(tid)
    }
}

impl vstd::std_specs::convert::FromSpecImpl<TextureId> for Draw {
    open spec fn obeys_from_spec() -> bool {
        true
    }

    open spec fn from_spec(tid: TextureId) -> Draw {
        Draw::Texture(tid)
    }
}

/// The cached GPU binding state.
#[derive(Clone, Copy, Debug, PartialEq, Eq, Structural)]
pub struct DrawState {
    /// The program currently bound, or `None` before the first bind.
    pub bound_program: Option<ProgramKind>,
    /// The color the color uniform holds, or `None` before the first write.
    pub current_color: Option<Color>,
    /// The texture currently bound, or `None` before the first bind.
    pub current_texture: Option<TextureId>,
    /// The ambient coloring mode restored after each flat-color draw.
    pub texture_coloring: TextureColoring,
}

/// The program bind is redundant exactly when `p` is already bound.
pub open spec fn program_bind_needed(s: DrawState, p: ProgramKind) -> bool {
    s.bound_program != Some(p)
}

/// The uniform write is redundant exactly when the uniform already holds
/// `c`.
pub open spec fn color_write_needed(s: DrawState, c: Color) -> bool {
    s.current_color != Some(c)
}

/// The texture bind is redundant exactly when `t` is already bound.
pub open spec fn texture_bind_needed(s: DrawState, t: TextureId) -> bool {
    s.current_texture != Some(t)
}

pub open spec fn with_program(s: DrawState, p: ProgramKind) -> DrawState {
    DrawState { bound_program: Some(p), ..s }
}

pub open spec fn with_color(s: DrawState, c: Color) -> DrawState {
    DrawState { current_color: Some(c), ..s }
}

pub open spec fn with_texture(s: DrawState, t: TextureId) -> DrawState {
    DrawState { current_texture: Some(t), ..s }
}

/// The calls a rectangle draw issues from state `s`: bind the rectangle
/// program if another is bound, then write the quad's placement; for a
/// flat color, select color mode, write the uniform unless it already
/// holds the color, draw, and restore the ambient mode; for a texture,
/// bind it unless already bound, and draw.
pub open spec fn rect_command_seq(
    s: DrawState,
    draw: Draw,
    position: Vec2,
    scale: Vec2,
) -> Seq<RectAction> {
    let prog: Seq<RectAction> = if program_bind_needed(s, ProgramKind::Rectangle) {
        seq![RectAction::UseProgram(ProgramKind::Rectangle)]
    } else {
        Seq::empty()
    };
    let placed: Seq<RectAction> = prog + seq![RectAction::SetPlacement { position, scale }];
    match draw {
        Draw::Color(c) => placed + seq![RectAction::SetColoring(TextureColoring::Color)] + (
        if color_write_needed(s, c) {
            seq![RectAction::WriteColor(c)]
        } else {
            Seq::empty()
        }) + seq![RectAction::DrawQuad] + seq![RectAction::SetColoring(s.texture_coloring)],
        Draw::Texture(t) => placed + (if texture_bind_needed(s, t) {
            seq![RectAction::BindTexture(t)]
        } else {
            Seq::empty()
        }) + seq![RectAction::DrawQuad],
    }
}

/// The state after a rectangle draw: the rectangle program is bound and
/// the drawn color or texture is current.
pub open spec fn rect_state_after(s: DrawState, draw: Draw) -> DrawState {
    match draw {
        Draw::Color(c) => with_color(with_program(s, ProgramKind::Rectangle), c),
        Draw::Texture(t) => with_texture(with_program(s, ProgramKind::Rectangle), t),
    }
}

impl DrawState {
    /// The initial state: nothing bound, nothing written, plain texture
    /// coloring ambient.
    pub fn new() -> (s: DrawState)
        ensures
            s == (DrawState {
                bound_program: None::<ProgramKind>,
                current_color: None::<Color>,
                current_texture: None::<TextureId>,
                texture_coloring: TextureColoring::Texture,
            }),
    {
        DrawState {
            bound_program: None,
            current_color: None,
            current_texture: None,
            texture_coloring: TextureColoring::Texture,
        }
    }

    /// Requests that program `p` be bound; returns whether the caller must
    /// issue the underlying bind.
    pub fn ensure_program(&mut self, p: ProgramKind) -> (bind: bool)
        ensures
            bind == program_bind_needed(*old(self), p),
            *final(self) == with_program(*old(self), p),
    {
        let needed: bool = match &self.bound_program {
            Some(q) => *q != p,
            None => true,
        };
        self.bound_program = Some(p);
        needed
    }

    /// Requests that the color uniform hold `c`; returns whether the
    /// caller must issue the underlying write.
    pub fn ensure_color(&mut self, c: Color) -> (write: bool)
        ensures
            write == color_write_needed(*old(self), c),
            *final(self) == with_color(*old(self), c),
    {
        let needed: bool = match &self.current_color {
            Some(q) => *q != c,
            None => true,
        };
        self.current_color = Some(c);
        needed
    }

    /// Requests that texture `t` be bound; returns whether the caller must
    /// issue the underlying bind.
    pub fn ensure_texture(&mut self, t: TextureId) -> (bind: bool)
        ensures
            bind == texture_bind_needed(*old(self), t),
            *final(self) == with_texture(*old(self), t),
    {
        let needed: bool = match &self.current_texture {
            Some(q) => *q != t,
            None => true,
        };
        self.current_texture = Some(t);
        needed
    }

    /// Sets the ambient coloring mode, restored after flat-color draws.
    pub fn set_texture_coloring(&mut self, mode: TextureColoring)
        ensures
            *final(self) == (DrawState { texture_coloring: mode, ..*old(self) }),
    {
        self.texture_coloring = mode;
    }

    /// Sequences a rectangle draw from the current state: returns exactly
    /// the GPU calls to issue, in order — placement after any program
    /// bind, so the uniforms reach the rectangle program — and moves the
    /// cache to the state after them.
    pub fn rect_commands(&mut self, draw: &Draw, position: Vec2, scale: Vec2) -> (cmds: Vec<
        RectAction,
    >)
        ensures
            cmds@ == rect_command_seq(*old(self), *draw, position, scale),
            *final(self) == rect_state_after(*old(self), *draw),
    {
        let ghost s0 = *self;
        let mut cmds: Vec<RectAction> = Vec::new();
        let bind_prog: bool = self.ensure_program(ProgramKind::Rectangle);
        if bind_prog {
            cmds.push(RectAction::UseProgram(ProgramKind::Rectangle));
        }
        cmds.push(RectAction::SetPlacement { position, scale });
        match draw {
            Draw::Color(c) => {
                cmds.push(RectAction::SetColoring(TextureColoring::Color));
                let write: bool = self.ensure_color(*c);
                if write {
                    cmds.push(RectAction::WriteColor(*c));
                }
                cmds.push(RectAction::DrawQuad);
                cmds.push(RectAction::SetColoring(self.texture_coloring));
                proof {
                    assert(cmds@ =~= rect_command_seq(s0, *draw, position, scale));
                }
            },
            Draw::Texture(t) => {
                let bind_tex: bool = self.ensure_texture(*t);
                if bind_tex {
                    cmds.push(RectAction::BindTexture(*t));
                }
                cmds.push(RectAction::DrawQuad);
                proof {
                    assert(cmds@ =~= rect_command_seq(s0, *draw, position, scale));
                }
            },
        }
        cmds
    }
}

/// Law: the state tracker deduplicates. Requesting the same color, program
/// or texture twice in a row performs no second underlying call, and a
/// request on the fresh sentinel state always performs one.
pub proof fn lemma_draw_state_dedup(s: DrawState, c: Color, p: ProgramKind, t: TextureId)
    ensures
        !color_write_needed(with_color(s, c), c),
        !program_bind_needed(with_program(s, p), p),
        !texture_bind_needed(with_texture(s, t), t),
        s.current_color is None ==> color_write_needed(s, c),
        s.bound_program is None ==> program_bind_needed(s, p),
        s.current_texture is None ==> texture_bind_needed(s, t),
{
}

/// A monotonically increasing source of texture handles, together with the
/// knowledge of which handles it has issued. Looking up a handle it never
/// issued is rejected by the facade (fail fast), rather than ignored.
#[derive(Clone, Copy, Debug, PartialEq, Eq, Structural)]
pub struct TextureAllocator {
    /// The next handle to hand out; every smaller value is already issued.
    pub next: u32,
}

impl TextureAllocator {
    pub fn new() -> (a: TextureAllocator)
        ensures
            a.next == 0,
    {
        TextureAllocator { next: 0 }
    }

    /// Issues the next handle.
    pub fn allocate(&mut self) -> (id: TextureId)
        requires
            old(self).next < u32::MAX,
        ensures
            id == TextureId(old(self).next),
            final(self).next == old(self).next + 1,
    {
        let id: TextureId = TextureId(self.next);
        self.next = self.next + 1;
        id
    }

    /// Whether `id` was issued by this allocator.
    pub fn is_known(&self, id: TextureId) -> (r: bool)
        ensures
            r == (id.0 < self.next),
    {
        id.0 < self.next
    }
}

} // verus!
