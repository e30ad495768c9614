use ctb_web::ui::{
    make_child_id, text_starts_with, ExpandableList, ExpandableListMessage, MenuButton,
    MenuButtonList, MenuButtonListMessage, MenuButtonMessage, Message, MessageData, Popout,
};

fn msg(target: &str, data: MessageData) -> Message {
    Message { target: target.to_string(), data }
}

fn button(m: MenuButtonMessage) -> MessageData {
    MessageData::MenuButton(m)
}

fn pairs(messages: &[Message]) -> Vec<(String, MessageData)> {
    messages.iter().map(|m| (m.target.clone(), m.data)).collect()
}

fn s(x: &str) -> String {
    x.to_string()
}

#[test]
fn child_ids_are_decimal() {
    assert_eq!(make_child_id(&s("list"), 0), "list-0");
    assert_eq!(make_child_id(&s("list"), 12), "list-12");
    assert_eq!(make_child_id(&s("list-3"), 105), "list-3-105");
    assert_eq!(make_child_id(&s(""), 7), "-7");
}

#[test]
fn prefixes_compare_bytes() {
    assert!(text_starts_with("list-1", "list"));
    assert!(text_starts_with("list", "list"));
    assert!(text_starts_with("list", ""));
    assert!(!text_starts_with("li", "list"));
    assert!(!text_starts_with("list-1", "list-2"));
    assert!(text_starts_with("list-10", "list-1"));
}

#[test]
fn button_follows_its_messages() {
    let mut b = MenuButton::new(s("b"), vec![s("Title")], Popout::Left);
    assert!(!b.hovered && !b.selected);
    b.handle_message(&msg("b", button(MenuButtonMessage::Hovered)));
    assert!(b.hovered);
    b.handle_message(&msg("other", button(MenuButtonMessage::Selected)));
    assert!(!b.selected);
    b.handle_message(&msg("b", button(MenuButtonMessage::Selected)));
    assert!(b.selected);
    b.handle_message(&msg("b", MessageData::MenuButtonList(MenuButtonListMessage::Click(0))));
    assert!(b.selected && b.hovered);
    b.handle_message(&msg("b", button(MenuButtonMessage::Unselected)));
    b.handle_message(&msg("b", button(MenuButtonMessage::Unhovered)));
    assert!(!b.selected && !b.hovered);
    assert_eq!(b.popout, Popout::Left);
    assert_eq!(b.title, vec![s("Title")]);
}

#[test]
fn pointer_drives_hover_and_click() {
    let mut b = MenuButton::new(s("b"), vec![s("T")], Popout::Fixed);
    assert_eq!(
        pairs(&b.pointer_messages(true, true)),
        vec![(s("b"), button(MenuButtonMessage::Hovered)), (s("b"), button(MenuButtonMessage::Selected))]
    );
    assert!(b.pointer_messages(false, true).is_empty());
    b.hovered = true;
    assert!(b.pointer_messages(true, false).is_empty());
    assert_eq!(
        pairs(&b.pointer_messages(false, false)),
        vec![(s("b"), button(MenuButtonMessage::Unhovered))]
    );
}

fn chart_list() -> MenuButtonList {
    MenuButtonList::new(s("charts"), Popout::Towards, vec![vec![s("A")], vec![s("B")], vec![s("C")]])
}

#[test]
fn list_buttons_get_child_ids() {
    let list = chart_list();
    assert_eq!(list.selected, 0);
    assert_eq!(list.sub_selected, 0);
    let ids: Vec<&str> = list.buttons.iter().map(|b| b.id.as_str()).collect();
    assert_eq!(ids, vec!["charts-0", "charts-1", "charts-2"]);
    assert_eq!(list.buttons[1].title, vec![s("B")]);
    assert!(list.buttons.iter().all(|b| b.popout == Popout::Towards && !b.selected));
}

#[test]
fn list_click_then_selection() {
    let mut list = chart_list();
    let (out, dirty) = list.handle_message(&msg(
        "charts",
        MessageData::MenuButtonList(MenuButtonListMessage::Click(2)),
    ));
    assert!(!dirty);
    assert_eq!(
        pairs(&out),
        vec![
            (s("charts-0"), button(MenuButtonMessage::Unselected)),
            (s("charts-2"), button(MenuButtonMessage::Selected)),
        ]
    );
    assert_eq!(list.selected, 0);

    let (out, dirty) = list.handle_message(&msg("charts-2", button(MenuButtonMessage::Selected)));
    assert!(dirty);
    assert_eq!(list.selected, 2);
    assert_eq!(
        pairs(&out),
        vec![
            (s("charts-0"), button(MenuButtonMessage::Unselected)),
            (s("charts-1"), button(MenuButtonMessage::Unselected)),
            (s("charts"), MessageData::MenuButtonList(MenuButtonListMessage::Selected(2))),
        ]
    );
    assert!(list.buttons[2].selected);
    assert!(!list.buttons[0].selected);

    // Messages for other elements leave the list alone.
    let (out, dirty) = list.handle_message(&msg("menu-0", button(MenuButtonMessage::Selected)));
    assert!(out.is_empty() && !dirty);
    assert_eq!(list.selected, 2);
}

fn diff_list() -> ExpandableList {
    ExpandableList::new(
        s("charts"),
        Popout::Fixed,
        vec![
            (vec![s("A")], vec![s("x"), s("y")]),
            (vec![s("B")], vec![s("z")]),
        ],
    )
}

#[test]
fn expandable_list_ids() {
    let list = diff_list();
    assert_eq!(list.buttons.len(), 2);
    assert_eq!(list.buttons[0].0.id, "charts-0");
    let subs: Vec<&str> = list.buttons[0].1.iter().map(|b| b.id.as_str()).collect();
    assert_eq!(subs, vec!["charts-0-0", "charts-0-1"]);
    assert_eq!(list.buttons[0].1[1].title, vec![s("y")]);
    assert_eq!(list.buttons[1].1[0].id, "charts-1-0");
}

#[test]
fn expandable_list_selects_button_then_sub_button() {
    let mut list = diff_list();
    let (out, dirty) = list.handle_message(&msg("charts-1", button(MenuButtonMessage::Selected)));
    assert!(dirty);
    assert_eq!(list.selected, 1);
    assert_eq!(list.sub_selected, 0);
    assert_eq!(
        pairs(&out),
        vec![
            (s("charts-0"), button(MenuButtonMessage::Unselected)),
            (s("charts"), MessageData::ExpandableList(ExpandableListMessage::Selected(1))),
            (s("charts-1-0"), button(MenuButtonMessage::Selected)),
        ]
    );
    assert!(list.buttons[1].0.selected);

    let (out, dirty) = list.handle_message(&msg("charts-1-0", button(MenuButtonMessage::Selected)));
    assert!(!dirty);
    assert_eq!(list.selected, 1);
    assert_eq!(list.sub_selected, 0);
    assert_eq!(
        pairs(&out),
        vec![
            (s("charts-0"), button(MenuButtonMessage::Unselected)),
            (s("charts"), MessageData::ExpandableList(ExpandableListMessage::SelectedSub(0))),
        ]
    );
    assert!(list.buttons[1].1[0].selected);
    assert!(!list.buttons[0].1[0].selected);
}

#[test]
fn expandable_list_clicks() {
    let mut list = diff_list();
    let (out, dirty) = list.handle_message(&msg(
        "charts",
        MessageData::ExpandableList(ExpandableListMessage::Click(1)),
    ));
    assert!(!dirty);
    assert_eq!(
        pairs(&out),
        vec![
            (s("charts-0"), button(MenuButtonMessage::Unselected)),
            (s("charts-1"), button(MenuButtonMessage::Selected)),
        ]
    );
    let (out, _) = list.handle_message(&msg(
        "charts",
        MessageData::ExpandableList(ExpandableListMessage::ClickSub(1)),
    ));
    assert_eq!(
        pairs(&out),
        vec![
            (s("charts-0-1"), button(MenuButtonMessage::Unselected)),
            (s("charts-0-1"), button(MenuButtonMessage::Selected)),
        ]
    );
}

#[test]
fn selecting_one_of_ten_unselects_the_rest() {
    let titles: Vec<Vec<String>> = (0..10).map(|i| vec![format!("T{}", i)]).collect();
    let mut list = MenuButtonList::new(s("l"), Popout::Fixed, titles);
    let (out, dirty) = list.handle_message(&msg("l-4", button(MenuButtonMessage::Selected)));
    assert!(dirty);
    assert_eq!(list.selected, 4);
    let expected: Vec<(String, MessageData)> = (0..10)
        .map(|k| {
            if k == 4 {
                (s("l"), MessageData::MenuButtonList(MenuButtonListMessage::Selected(4)))
            } else {
                (format!("l-{}", k), button(MenuButtonMessage::Unselected))
            }
        })
        .collect();
    assert_eq!(pairs(&out), expected);
}

#[test]
fn eleventh_button_shares_a_prefix() {
    // "l-10" begins with "l-1": selecting the eleventh button leaves the second one alone.
    let titles: Vec<Vec<String>> = (0..11).map(|i| vec![format!("T{}", i)]).collect();
    let mut list = MenuButtonList::new(s("l"), Popout::Fixed, titles);
    let (out, dirty) = list.handle_message(&msg("l-10", button(MenuButtonMessage::Selected)));
    assert!(dirty);
    assert_eq!(list.selected, 10);
    let targets: Vec<String> = out.iter().map(|m| m.target.clone()).collect();
    assert!(!targets.contains(&s("l-1")));
    assert_eq!(out.len(), 10);
}

#[test]
fn expandable_selection_messages_in_button_order() {
    let mut list = ExpandableList::new(
        s("e"),
        Popout::Right,
        vec![
            (vec![s("A")], vec![s("a0")]),
            (vec![s("B")], vec![s("b0"), s("b1"), s("b2")]),
            (vec![s("C")], vec![s("c0")]),
        ],
    );
    let (out, dirty) = list.handle_message(&msg("e-1", button(MenuButtonMessage::Selected)));
    assert!(dirty);
    assert_eq!(
        pairs(&out),
        vec![
            (s("e-0"), button(MenuButtonMessage::Unselected)),
            (s("e"), MessageData::ExpandableList(ExpandableListMessage::Selected(1))),
            (s("e-1-0"), button(MenuButtonMessage::Selected)),
            (s("e-2"), button(MenuButtonMessage::Unselected)),
        ]
    );
    let (out, dirty) = list.handle_message(&msg("e-1-2", button(MenuButtonMessage::Selected)));
    assert!(!dirty);
    assert_eq!(list.selected, 1);
    assert_eq!(list.sub_selected, 2);
    assert_eq!(
        pairs(&out),
        vec![
            (s("e-0"), button(MenuButtonMessage::Unselected)),
            (s("e-1-0"), button(MenuButtonMessage::Unselected)),
            (s("e-1-1"), button(MenuButtonMessage::Unselected)),
            (s("e"), MessageData::ExpandableList(ExpandableListMessage::SelectedSub(2))),
            (s("e-2"), button(MenuButtonMessage::Unselected)),
        ]
    );
    assert!(list.buttons[1].1[2].selected);
}
