use smitten::state::{ProgramKind, RectAction, TextureAllocator};
use smitten::{Color, Draw, DrawState, Rat, TextureColoring, TextureId, Vec2};

fn placement() -> (Vec2, Vec2) {
    let position = Vec2::new(Rat::new(1, 2), Rat::new(0, 1));
    let scale = Vec2::new(Rat::new(1, 4), Rat::new(1, 4));
    (position, scale)
}

#[test]
fn first_color_write_always_happens() {
    let mut s = DrawState::new();
    assert!(s.ensure_color(Color::red()));
}

#[test]
fn repeated_color_requests_write_once() {
    let mut s = DrawState::new();
    assert!(s.ensure_color(Color::red()));
    assert!(!s.ensure_color(Color::red()));
    assert!(s.ensure_color(Color::blue()));
    assert!(!s.ensure_color(Color::blue()));
}

#[test]
fn program_and_texture_requests_deduplicate() {
    let mut s = DrawState::new();
    assert!(s.ensure_program(ProgramKind::Sdf));
    assert!(!s.ensure_program(ProgramKind::Sdf));
    assert!(s.ensure_program(ProgramKind::Rectangle));
    assert!(s.ensure_texture(TextureId(3)));
    assert!(!s.ensure_texture(TextureId(3)));
    assert!(s.ensure_texture(TextureId(4)));
}

#[test]
fn color_rect_selects_writes_draws_and_restores() {
    let mut s = DrawState::new();
    let (position, scale) = placement();
    let cmds = s.rect_commands(&Draw::Color(Color::red()), position, scale);
    assert_eq!(
        cmds,
        vec![
            RectAction::UseProgram(ProgramKind::Rectangle),
            RectAction::SetPlacement { position, scale },
            RectAction::SetColoring(TextureColoring::Color),
            RectAction::WriteColor(Color::red()),
            RectAction::DrawQuad,
            RectAction::SetColoring(TextureColoring::Texture),
        ]
    );
    // the same draw again: program bound, color current, no rebinds
    let again = s.rect_commands(&Draw::Color(Color::red()), position, scale);
    assert_eq!(
        again,
        vec![
            RectAction::SetPlacement { position, scale },
            RectAction::SetColoring(TextureColoring::Color),
            RectAction::DrawQuad,
            RectAction::SetColoring(TextureColoring::Texture),
        ]
    );
}

#[test]
fn color_rect_restores_the_ambient_mode() {
    let mut s = DrawState::new();
    let (position, scale) = placement();
    s.set_texture_coloring(TextureColoring::MixTexture);
    let cmds = s.rect_commands(&Draw::Color(Color::green()), position, scale);
    assert_eq!(
        cmds.last(),
        Some(&RectAction::SetColoring(TextureColoring::MixTexture))
    );
}

#[test]
fn texture_rect_binds_once() {
    let mut s = DrawState::new();
    let (position, scale) = placement();
    let cmds = s.rect_commands(&Draw::Texture(TextureId(7)), position, scale);
    assert_eq!(
        cmds,
        vec![
            RectAction::UseProgram(ProgramKind::Rectangle),
            RectAction::SetPlacement { position, scale },
            RectAction::BindTexture(TextureId(7)),
            RectAction::DrawQuad,
        ]
    );
    let again = s.rect_commands(&Draw::Texture(TextureId(7)), position, scale);
    assert_eq!(
        again,
        vec![RectAction::SetPlacement { position, scale }, RectAction::DrawQuad]
    );
    let other = s.rect_commands(&Draw::Texture(TextureId(8)), position, scale);
    assert_eq!(
        other,
        vec![
            RectAction::SetPlacement { position, scale },
            RectAction::BindTexture(TextureId(8)),
            RectAction::DrawQuad,
        ]
    );
}

#[test]
fn texture_handles_count_up_and_are_known() {
    let mut a = TextureAllocator::new();
    let first = a.allocate();
    let second = a.allocate();
    assert_eq!(first, TextureId(0));
    assert_eq!(second, TextureId(1));
    assert!(a.is_known(first));
    assert!(a.is_known(second));
    assert!(!a.is_known(TextureId(2)));
}
