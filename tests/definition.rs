use desktop_gremlin::definition::{png_animation_name, strip_png_suffix};
use desktop_gremlin::gremlin::Gremlin;
use desktop_gremlin::launch::LaunchArguments;

fn animations(g: &Gremlin) -> Vec<(String, u32)> {
    g.animation_map.iter().map(|a| (a.animation_name.clone(), a.sprite_count)).collect()
}

#[test]
fn definition_lines_are_read() {
    let text = "// a comment\n.name=Mambo\n.author=someone\nINTRO=8\r\nIDLE=4\nbad line\nX=notanumber\nY=1=2\nOUTRO=+6";
    let g = Gremlin::from_definition(text);
    assert_eq!(g.name, "Mambo");
    assert_eq!(g.metadata, vec![(".author".to_string(), "someone".to_string())]);
    assert_eq!(
        animations(&g),
        vec![("INTRO".to_string(), 8), ("IDLE".to_string(), 4), ("OUTRO".to_string(), 6)]
    );
    assert!(g.animator.is_none());
    assert!(g.animation_map.iter().all(|a| a.sprite_path.is_none()));
}

#[test]
fn later_line_wins_for_lookup() {
    let mut g = Gremlin::from_definition("RUN=3\nRUN=5\n");
    let i = g.find_animation(&"RUN".to_string()).unwrap();
    assert_eq!(g.animation_map[i].sprite_count, 5);
    g.set_sprite_path(&"RUN".to_string(), "a/run.png".to_string());
    assert_eq!(g.animation_map[i].sprite_path.as_deref(), Some("a/run.png"));
    g.set_sprite_path(&"NONE".to_string(), "x.png".to_string());
    assert_eq!(g.animation_map.len(), 2);
}

#[test]
fn numbers_must_fit_and_be_plain() {
    let g = Gremlin::from_definition("A=4294967295\nB=4294967296\nC=-1\nD=\nE=+\nF= 3\nG=007");
    assert_eq!(animations(&g), vec![("A".to_string(), u32::MAX), ("G".to_string(), 7)]);
}

#[test]
fn empty_text_and_trailing_carriage_return() {
    let g = Gremlin::from_definition("");
    assert!(g.animation_map.is_empty());
    assert_eq!(g.name, "");
    let g = Gremlin::from_definition(".name=Bob\r");
    assert_eq!(g.name, "Bob\r");
    let g = Gremlin::from_definition("\n\n.name=Al\r\n");
    assert_eq!(g.name, "Al");
}

#[test]
fn sheet_file_names_give_animation_names() {
    assert_eq!(png_animation_name("intro.png"), Some("INTRO".to_string()));
    assert_eq!(png_animation_name("Run_Left.png"), Some("RUN_LEFT".to_string()));
    assert_eq!(png_animation_name("idle.PNG"), None);
    assert_eq!(png_animation_name("notes.txt"), None);
    assert_eq!(png_animation_name(".png"), Some("".to_string()));
    assert_eq!(strip_png_suffix(&"ABC.PNG".to_string()), Some("ABC".to_string()));
    assert_eq!(strip_png_suffix(&"PNG".to_string()), None);
}

#[test]
fn launch_options_are_read() {
    let args = |v: &[&str]| v.iter().map(|s| s.to_string()).collect::<Vec<String>>();
    let d = LaunchArguments::parse_from_args(args(&[]));
    assert_eq!((d.w, d.h, d.title.as_str()), (150, 150, "Desktop Gremlin!"));
    let a = LaunchArguments::parse_from_args(args(&["-w", "320", "-h", "abc", "-t", "Pet", "-x", "-w"]));
    assert_eq!((a.w, a.h, a.title.as_str()), (320, 200, "Pet"));
}

#[test]
fn sheets_attach_to_named_animations() {
    let mut g = Gremlin::from_definition("INTRO=8\nIDLE=4\n");
    g.attach_sheets(vec![
        ("intro.png".to_string(), "a/intro.png".to_string()),
        ("notes.txt".to_string(), "a/notes.txt".to_string()),
        ("other.png".to_string(), "a/other.png".to_string()),
        ("Intro.png".to_string(), "b/Intro.png".to_string()),
    ]);
    assert_eq!(g.animation_map[0].sprite_path.as_deref(), Some("b/Intro.png"));
    assert_eq!(g.animation_map[1].sprite_path, None);
    assert_eq!(g.animation_map.len(), 2);
}
