use square_arena::audio::{Effect, Music, Theme};
use square_arena::button::Button;
use square_arena::geometry::{Arena, Rect, Vec2, UNIT};
use square_arena::menu::Menu;
use square_arena::player::Controls;
use square_arena::scenes::{FrameInput, Scene, SceneManager, Transition};

fn input() -> FrameInput {
    FrameInput {
        delta: 16_667,
        decay: 977_160,
        arena: Arena::new(800 * UNIT, 600 * UNIT),
        escape: false,
        bgm_done: false,
        red: Controls::idle(),
        blue: Controls::idle(),
        mouse: Vec2::new(0, 0),
        click: false,
    }
}

fn level(_r: i64) -> Vec2 {
    Vec2::new(1000, 0)
}

fn click_at(x_px: i64, y_px: i64) -> FrameInput {
    let mut i = input();
    i.mouse = Vec2::new(x_px * UNIT, y_px * UNIT);
    i.click = true;
    i
}

#[test]
fn button_bounds_scale_with_viewport() {
    let b = Button::menu_button("PLAY".to_string(), 40, Transition::ToGame);
    assert_eq!(b.bounds, Rect { x: 35, y: 40, w: 30, h: 8 });
    let r = b.get_absolute_bounds(Arena::new(800 * UNIT, 600 * UNIT));
    assert_eq!(r, Rect { x: 280 * UNIT, y: 240 * UNIT, w: 240 * UNIT, h: 48 * UNIT });
}

#[test]
fn button_hover_and_click() {
    let mut b = Button::new("X".to_string(), Rect { x: 10, y: 10, w: 10, h: 10 }, Transition::Quit);
    let a = Arena::new(1000, 1000);
    assert_eq!(b.update(Vec2::new(150, 150), false, a), None);
    assert!(b.hovering);
    assert_eq!(b.update(Vec2::new(200, 200), true, a), Some(Transition::Quit));
    assert_eq!(b.update(Vec2::new(201, 200), true, a), None);
    assert!(!b.hovering);
}

#[test]
fn menu_escape_quits() {
    let mut m = Menu::new();
    let mut i = input();
    i.escape = true;
    let out = m.update(&i);
    assert_eq!(out.transition, Some(Transition::Quit));
    assert!(out.effects.is_empty());
}

#[test]
fn menu_play_and_quit_buttons() {
    let mut m = Menu::new();
    let out = m.update(&click_at(400, 260));
    assert_eq!(out.transition, Some(Transition::ToGame));
    assert_eq!(out.effects, vec![Effect::ButtonClick]);
    let out = m.update(&click_at(400, 330));
    assert_eq!(out.transition, Some(Transition::Quit));
    let out = m.update(&click_at(10, 10));
    assert_eq!(out.transition, None);
    assert!(out.effects.is_empty());
}

#[test]
fn manager_runs_menu_then_game_then_menu() {
    let mut sm = SceneManager::new();
    assert_eq!(sm.entry_music(), vec![Music::Loop(Theme::Menu)]);
    let out = sm.update(&click_at(400, 260), &level);
    assert!(!out.quit);
    assert_eq!(out.transition, Some(Transition::ToGame));
    assert_eq!(out.music, vec![Music::Stop]);
    assert!(matches!(sm.current_scene, Scene::Game(_)));
    assert!(sm.entry_music().is_empty());
    let out = sm.update(&input(), &level);
    assert_eq!(out.transition, None);
    let mut esc = input();
    esc.escape = true;
    let out = sm.update(&esc, &level);
    assert!(!out.quit);
    assert_eq!(out.music, vec![Music::Stop, Music::Loop(Theme::Menu)]);
    assert!(matches!(sm.current_scene, Scene::Menu(_)));
    let out = sm.update(&esc, &level);
    assert!(out.quit);
    assert_eq!(out.transition, Some(Transition::Quit));
    assert_eq!(out.music, vec![Music::Stop]);
}

#[test]
fn quit_button_exits() {
    let mut sm = SceneManager::new();
    let out = sm.update(&click_at(400, 330), &level);
    assert!(out.quit);
    assert_eq!(out.effects, vec![Effect::ButtonClick]);
}

#[test]
fn fresh_menu_labels() {
    let m = Menu::new();
    assert_eq!(m.buttons.len(), 2);
    assert_eq!(m.buttons[0].label, "PLAY");
    assert_eq!(m.buttons[1].label, "QUIT");
    assert!(!m.buttons[0].hovering && !m.buttons[1].hovering);
}

#[test]
fn arena_frame_music_through_manager() {
    let mut sm = SceneManager::new();
    sm.update(&click_at(400, 260), &level);
    let out = sm.update(&input(), &level);
    assert!(out.music.is_empty());
    let mut done = input();
    done.bgm_done = true;
    let out = sm.update(&done, &level);
    match &sm.current_scene {
        Scene::Game(g) => {
            let t = g.last_theme.unwrap();
            assert!(t < 4);
            assert_eq!(out.music, vec![Music::Queue(Theme::Game(t))]);
        }
        Scene::Menu(_) => panic!("the round should still run"),
    }
}
