use wayland_wire::codegen::{Dir, Event};

fn describe(e: Event) -> std::string::String {
    match e {
        Event::EnterDir { in_dir, out_dir } => format!("enter {:?} {:?}", in_dir, out_dir),
        Event::Protocol { in_file, out_file, formatted } => format!("proto {in_file} {out_file} {formatted}"),
        Event::ExitDir { in_dir, out_dir } => format!("exit {in_dir} {out_dir}"),
    }
}

#[test]
fn walk_is_depth_first() {
    let tree = Dir::new()
        .in_dir("xml")
        .out_dir("src")
        .protocol("wayland.xml", "wayland.rs")
        .dir(Dir::new().in_dir("stable").protocols(&[("a.xml", "a.rs"), ("b.xml", "b.rs")]));
    let mut it = tree.into_iter();
    let mut events = Vec::new();
    while let Some(e) = it.next() {
        events.push(describe(e));
    }
    assert_eq!(
        events,
        vec![
            "enter Some(\"xml\") Some(\"src\")",
            "enter Some(\"stable\") None",
            "proto b.xml b.rs true",
            "proto a.xml a.rs true",
            "exit true false",
            "proto wayland.xml wayland.rs true",
            "exit true true",
        ]
    );
    assert!(it.next().is_none());
}
