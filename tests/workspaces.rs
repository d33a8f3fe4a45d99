use unibar::{
    display_label, select_style, Backdrop, ColorScheme, EntityRef, InboundEvent, UiEvent,
    UiEventKind, WorkspaceInfo, WorkspaceSystem,
};

fn info(num: i32, name: &str, visible: bool, focused: bool) -> WorkspaceInfo {
    WorkspaceInfo { num, name: name.to_string(), visible, focused }
}

fn entity(id: u32) -> EntityRef {
    EntityRef { id, generation: 1 }
}

fn click(target: EntityRef) -> UiEvent {
    UiEvent { kind: UiEventKind::Click, target }
}

fn three_workspaces() -> Vec<WorkspaceInfo> {
    vec![info(0, "1", true, true), info(1, "2", false, false), info(2, "3", false, false)]
}

/// Runs a frame's sweep step and binds the new button to `next_id`, as the host does.
fn frame(system: &mut WorkspaceSystem, reply: &Vec<WorkspaceInfo>, next_id: u32) -> Option<usize> {
    let rebuild = system.sweep_step(reply)?;
    assert!(system.bind(rebuild.slot, entity(next_id)));
    Some(rebuild.slot)
}

#[test]
fn label_after_last_separator() {
    assert_eq!(display_label("out1:3"), "3");
    assert_eq!(display_label("3"), "3");
    assert_eq!(display_label("a:b:web"), "web");
    assert_eq!(display_label("mail:"), "");
    assert_eq!(display_label(""), "");
}

#[test]
fn style_for_each_visibility_and_focus() {
    let s = select_style(true, true);
    assert_eq!(s.backdrop, Backdrop::Accent);
    assert_eq!(s.text_color, ColorScheme::black());
    let s = select_style(true, false);
    assert_eq!(s.backdrop, Backdrop::Highlight);
    assert_eq!(s.text_color, ColorScheme::foreground());
    let s = select_style(false, false);
    assert_eq!(s.backdrop, Backdrop::Plain);
    assert_eq!(s.text_color, ColorScheme::foreground());
    assert_eq!(select_style(false, true), select_style(false, false));
}

#[test]
fn backdrop_images() {
    assert_eq!(Backdrop::Accent.image_path(), "images/purple.png");
    assert_eq!(Backdrop::Highlight.image_path(), "images/selection.png");
    assert_eq!(Backdrop::Plain.image_path(), "images/background.png");
}

#[test]
fn palette_values() {
    let b = ColorScheme::black();
    assert_eq!((b.r, b.g, b.b, b.a), (50, 50, 50, 1000));
    let f = ColorScheme::foreground();
    assert_eq!((f.r, f.g, f.b, f.a), (972, 972, 949, 1000));
    let p = ColorScheme::purple();
    assert_eq!((p.r, p.g, p.b, p.a), (741, 576, 976, 1000));
    let o = ColorScheme::orange();
    assert_eq!((o.r, o.g, o.b, o.a), (1000, 721, 423, 1000));
}

#[test]
fn end_to_end_sweep_of_three_workspaces() {
    let mut system = WorkspaceSystem::new();
    // Finish the initial sweep on an empty list: nothing happens.
    assert_eq!(frame(&mut system, &vec![], 100), None);
    assert_eq!(system.workspace_count(), 0);
    system.observe_events(&vec![InboundEvent::WorkspaceChanged]);
    assert!(system.needs_update());
    let reply = three_workspaces();
    assert_eq!(frame(&mut system, &reply, 10), Some(0));
    assert_eq!(frame(&mut system, &reply, 11), Some(1));
    assert_eq!(frame(&mut system, &reply, 12), Some(2));
    assert!(!system.needs_update());
    assert_eq!(system.cursor(), 0);
    assert_eq!(system.workspace_count(), 3);
    assert_eq!(system.slot_count(), 3);
    for (i, name) in ["1", "2", "3"].iter().enumerate() {
        let slot = system.slot(i).unwrap();
        assert_eq!(slot.name(), *name);
        assert!(slot.has_entity(entity(10 + i as u32)));
        assert_eq!(slot.entity_ref(), Some(entity(10 + i as u32)));
    }
    // The sweep is over: another frame rebuilds nothing.
    assert_eq!(frame(&mut system, &reply, 13), None);
}

#[test]
fn burst_of_changes_starts_one_sweep() {
    let mut system = WorkspaceSystem::new();
    let reply = three_workspaces();
    for id in 0..3 {
        frame(&mut system, &reply, id);
    }
    assert!(!system.needs_update());
    system.observe_events(&vec![
        InboundEvent::WorkspaceChanged,
        InboundEvent::Other,
        InboundEvent::WorkspaceChanged,
        InboundEvent::WorkspaceChanged,
    ]);
    assert!(system.needs_update());
    assert_eq!(system.cursor(), 0);
    let mut visited = Vec::new();
    let mut next = 20;
    while let Some(slot) = frame(&mut system, &reply, next) {
        visited.push(slot);
        next += 1;
    }
    assert_eq!(visited, vec![0, 1, 2]);
}

#[test]
fn other_events_start_no_sweep() {
    let mut system = WorkspaceSystem::new();
    let reply = three_workspaces();
    for id in 0..3 {
        frame(&mut system, &reply, id);
    }
    system.observe_events(&vec![InboundEvent::Other, InboundEvent::Other]);
    assert!(!system.needs_update());
    system.observe_events(&vec![]);
    assert!(!system.needs_update());
}

#[test]
fn empty_workspace_list_changes_nothing() {
    let mut system = WorkspaceSystem::new();
    let reply = three_workspaces();
    assert_eq!(frame(&mut system, &reply, 1), Some(0));
    assert_eq!(system.cursor(), 1);
    assert!(system.sweep_step(&vec![]).is_none());
    assert_eq!(system.cursor(), 1);
    assert!(system.needs_update());
    assert_eq!(system.workspace_count(), 3);
    assert_eq!(frame(&mut system, &reply, 2), Some(1));
}

#[test]
fn each_step_rebuilds_one_slot_and_releases_its_button() {
    let mut system = WorkspaceSystem::new();
    let reply = three_workspaces();
    for id in 0..3 {
        frame(&mut system, &reply, id);
    }
    system.observe_events(&vec![InboundEvent::WorkspaceChanged]);
    let renamed = vec![info(0, "out:1", true, false), info(1, "2", true, true), info(2, "3", false, false)];
    let rebuild = system.sweep_step(&renamed).unwrap();
    assert_eq!(rebuild.slot, 0);
    assert_eq!(rebuild.released, Some(entity(0)));
    assert_eq!(rebuild.button.label, "1");
    assert_eq!(rebuild.button.x, 10);
    assert_eq!(rebuild.button.style.backdrop, Backdrop::Highlight);
    assert_eq!(system.slot(0).unwrap().name(), "out:1");
    assert_eq!(system.slot(0).unwrap().entity_ref(), None);
    // The other slots keep their buttons.
    assert!(system.slot(1).unwrap().has_entity(entity(1)));
    assert!(system.slot(2).unwrap().has_entity(entity(2)));
    assert!(system.bind(0, entity(7)));
    let rebuild = system.sweep_step(&renamed).unwrap();
    assert_eq!(rebuild.slot, 1);
    assert_eq!(rebuild.released, Some(entity(1)));
    assert_eq!(rebuild.button.x, 30);
    assert_eq!(rebuild.button.style.backdrop, Backdrop::Accent);
    assert_eq!(rebuild.button.style.text_color, ColorScheme::black());
}

#[test]
fn shrunken_list_restarts_the_sweep() {
    let mut system = WorkspaceSystem::new();
    let reply = three_workspaces();
    assert_eq!(frame(&mut system, &reply, 0), Some(0));
    assert_eq!(frame(&mut system, &reply, 1), Some(1));
    assert_eq!(system.cursor(), 2);
    let shorter = vec![info(0, "1", true, true)];
    assert_eq!(frame(&mut system, &shorter, 2), Some(0));
    assert!(!system.needs_update());
    assert_eq!(system.cursor(), 0);
    assert_eq!(system.workspace_count(), 1);
}

#[test]
fn click_on_unbound_entity_sends_nothing() {
    let mut system = WorkspaceSystem::new();
    assert_eq!(system.click_command(&click(entity(5))), None);
    let reply = three_workspaces();
    for id in 0..3 {
        frame(&mut system, &reply, id);
    }
    assert_eq!(system.click_command(&click(entity(9))), None);
    assert_eq!(system.click_command(&click(EntityRef { id: 1, generation: 2 })), None);
}

#[test]
fn click_on_bound_entity_switches_to_its_workspace() {
    let mut system = WorkspaceSystem::new();
    let reply = vec![info(1, "out1:1", true, true), info(2, "out1:mail", false, false)];
    frame(&mut system, &reply, 40);
    frame(&mut system, &reply, 41);
    assert_eq!(system.click_command(&click(entity(40))), Some("workspace out1:1".to_string()));
    assert_eq!(system.click_command(&click(entity(41))), Some("workspace out1:mail".to_string()));
    let other = UiEvent { kind: UiEventKind::Other, target: entity(41) };
    assert_eq!(system.click_command(&other), None);
}

#[test]
fn bind_refuses_what_would_break_ownership() {
    let mut system = WorkspaceSystem::new();
    let reply = three_workspaces();
    let rebuild = system.sweep_step(&reply).unwrap();
    assert!(!system.bind(5, entity(1)));
    assert!(system.bind(rebuild.slot, entity(1)));
    // The slot already holds a button.
    assert!(!system.bind(rebuild.slot, entity(2)));
    let rebuild = system.sweep_step(&reply).unwrap();
    // The entity is already bound to another slot.
    assert!(!system.bind(rebuild.slot, entity(1)));
    assert!(system.bind(rebuild.slot, entity(2)));
}

#[test]
fn clicks_of_a_frame_give_their_commands_in_order() {
    let mut system = WorkspaceSystem::new();
    let reply = vec![info(1, "1", true, true), info(2, "2:code", false, false)];
    frame(&mut system, &reply, 50);
    frame(&mut system, &reply, 51);
    let events = vec![
        click(entity(51)),
        UiEvent { kind: UiEventKind::Other, target: entity(50) },
        click(entity(99)),
        click(entity(50)),
    ];
    assert_eq!(
        system.click_commands(&events),
        vec!["workspace 2:code".to_string(), "workspace 1".to_string()]
    );
    assert!(system.click_commands(&vec![]).is_empty());
}
