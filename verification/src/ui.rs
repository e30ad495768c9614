use vstd::prelude::*;
use vstd::utf8::encode_utf8;

verus! {

/// Appends `ch` to the end of the string, as the documentation of `String::push` says.
pub assume_specification[ String::push ](string: &mut String, ch: char)
    ensures
        final(string)@ == old(string)@.push(ch),
;

/// Where a button moves when it is hovered or selected.
#[derive(Debug, Clone, Copy, PartialEq, Eq, Structural)]
pub enum Popout {
    /// The button stays where it is.
    Fixed,
    Left,
    Right,
    Towards,
}

/// Messages for a single button.
#[derive(Debug, Clone, Copy, PartialEq, Eq, Structural)]
pub enum MenuButtonMessage {
    Selected,
    Unselected,
    Hovered,
    Unhovered,
}

/// Messages for a list of buttons.
#[derive(Debug, Clone, Copy, PartialEq, Eq, Structural)]
pub enum MenuButtonListMessage {
    /// Asks the list to select the button at this position.
    Click(usize),
    /// The list selected the button at this position.
    Selected(usize),
}

/// Messages for a list of buttons with sub-buttons under the selected one.
#[derive(Debug, Clone, Copy, PartialEq, Eq, Structural)]
pub enum ExpandableListMessage {
    /// Asks the list to select the button at this position.
    Click(usize),
    /// Asks the list to select the sub-button at this position.
    ClickSub(usize),
    /// The list selected the button at this position.
    Selected(usize),
    /// The list selected the sub-button at this position.
    SelectedSub(usize),
}

/// What a message says.
#[derive(Debug, Clone, Copy, PartialEq, Eq, Structural)]
pub enum MessageData {
    MenuButton(MenuButtonMessage),
    MenuButtonList(MenuButtonListMessage),
    ExpandableList(ExpandableListMessage),
}

/// A message for the user-interface element whose id is `target`.
#[derive(Debug, Clone)]
pub struct Message {
    pub target: String,
    pub data: MessageData,
}

impl View for Message {
    type V = (Seq<char>, MessageData);

    open spec fn view(&self) -> (Seq<char>, MessageData) {
        (self.target@, self.data)
    }
}

/// The views of a sequence of messages.
pub open spec fn views(messages: Seq<Message>) -> Seq<(Seq<char>, MessageData)> {
    messages.map_values(|m: Message| m@)
}

fn make_message(target: &String, data: MessageData) -> (r: Message)
    ensures
        r@ == (target@, data),
{
    Message { target: target.clone(), data }
}

proof fn lemma_views_push(messages: Seq<Message>, m: Message)
    ensures
        views(messages.push(m)) == views(messages).push(m@),
{
    assert(views(messages.push(m)) =~= views(messages).push(m@));
}

/// Whether the text `s` begins with the text `p`, byte for byte.
pub open spec fn starts_with(s: Seq<char>, p: Seq<char>) -> bool {
    let sb = encode_utf8(s);
    let pb = encode_utf8(p);
    pb.len() <= sb.len() && sb.subrange(0, pb.len() as int) == pb
}

/// Every text begins with itself.
pub proof fn lemma_starts_with_self(s: Seq<char>)
    ensures
        starts_with(s, s),
{
    assert(encode_utf8(s).subrange(0, encode_utf8(s).len() as int) =~= encode_utf8(s));
}

/// Whether `s` begins with `p`.
pub fn text_starts_with(s: &str, p: &str) -> (r: bool)
    ensures
        r == starts_with(s@, p@),
{
    let sb = s.as_bytes();
    let pb = p.as_bytes();
    if pb.len() > sb.len() {
        return false;
    }
    let mut i: usize = 0;
    while i < pb.len()
        invariant
            i <= pb@.len() <= sb@.len(),
            sb@ == encode_utf8(s@),
            pb@ == encode_utf8(p@),
            sb@.subrange(0, i as int) == pb@.subrange(0, i as int),
        decreases pb@.len() - i,
    {
        if sb[i] != pb[i] {
            assert(sb@.subrange(0, pb@.len() as int)[i as int] != pb@[i as int]);
            return false;
        }
        i = i + 1;
        assert(sb@.subrange(0, i as int) =~= pb@.subrange(0, i as int));
    }
    assert(pb@.subrange(0, pb@.len() as int) =~= pb@);
    true
}

/// The decimal digit of `d` (below 10).
pub open spec fn digit(d: nat) -> char {
    (48 + d) as char
}

/// The decimal notation of `n`.
pub open spec fn decimal(n: nat) -> Seq<char>
    decreases n,
{
    if n < 10 {
        seq![digit(n)]
    } else {
        decimal(n / 10).push(digit(n % 10))
    }
}

/// Appends the decimal notation of `n`.
pub(crate) fn push_decimal(s: &mut String, n: u64)
    ensures
        final(s)@ == old(s)@ + decimal(n as nat),
    decreases n,
{
    if n >= 10 {
        push_decimal(s, n / 10);
    }
    let d = (n % 10) as u8;
    let c = (48u8 + d) as char;
    s.push(c);
    assert(final(s)@ =~= old(s)@ + decimal(n as nat));
}

/// The id of the child at position `idx` of the element `parent`: the parent's id, a dash
/// and the position in decimal.
pub open spec fn child_id(parent: Seq<char>, idx: nat) -> Seq<char> {
    parent.push('-') + decimal(idx)
}

/// Builds `child_id(parent, idx)`.
pub fn make_child_id(parent: &String, idx: usize) -> (r: String)
    ensures
        r@ == child_id(parent@, idx as nat),
{
    let mut s = parent.clone();
    s.push('-');
    push_decimal(&mut s, idx as u64);
    s
}

/// The state of a button that the messages decide: which element it is, what it shows,
/// and whether it is hovered or selected.
pub struct MenuButton {
    pub id: String,
    pub title: Vec<String>,
    pub hovered: bool,
    pub selected: bool,
    pub popout: Popout,
}

/// The hover state of the button with id `id` after it receives `m`.
pub open spec fn hovered_after(id: Seq<char>, hovered: bool, m: (Seq<char>, MessageData)) -> bool {
    if m.0 == id {
        match m.1 {
            MessageData::MenuButton(MenuButtonMessage::Hovered) => true,
            MessageData::MenuButton(MenuButtonMessage::Unhovered) => false,
            _ => hovered,
        }
    } else {
        hovered
    }
}

/// The selection state of the button with id `id` after it receives `m`.
pub open spec fn selected_after(id: Seq<char>, selected: bool, m: (Seq<char>, MessageData)) -> bool {
    if m.0 == id {
        match m.1 {
            MessageData::MenuButton(MenuButtonMessage::Selected) => true,
            MessageData::MenuButton(MenuButtonMessage::Unselected) => false,
            _ => selected,
        }
    } else {
        selected
    }
}

/// `b` is `a` after receiving `m`: same id, title and popout, with hover and selection
/// updated.
pub open spec fn button_after(a: MenuButton, b: MenuButton, m: (Seq<char>, MessageData)) -> bool {
    &&& b.id@ == a.id@
    &&& b.title@ == a.title@
    &&& b.popout == a.popout
    &&& b.hovered == hovered_after(a.id@, a.hovered, m)
    &&& b.selected == selected_after(a.id@, a.selected, m)
}

/// `b` is `a` unchanged.
pub open spec fn button_same(a: MenuButton, b: MenuButton) -> bool {
    &&& b.id@ == a.id@
    &&& b.title@ == a.title@
    &&& b.popout == a.popout
    &&& b.hovered == a.hovered
    &&& b.selected == a.selected
}

impl MenuButton {
    /// A button that is neither hovered nor selected.
    pub fn new(id: String, title: Vec<String>, popout: Popout) -> (r: Self)
        ensures
            r.id@ == id@,
            r.title@ == title@,
            r.popout == popout,
            !r.hovered,
            !r.selected,
    {
        MenuButton { id, title, hovered: false, selected: false, popout }
    }

    /// Applies a message meant for this button: hover, unhover, select or unselect.
    /// Messages for other elements change nothing.
    pub fn handle_message(&mut self, message: &Message)
        ensures
            button_after(*old(self), *final(self), message@),
    {
        if message.target == self.id {
            match message.data {
                MessageData::MenuButton(MenuButtonMessage::Hovered) => self.hovered = true,
                MessageData::MenuButton(MenuButtonMessage::Unhovered) => self.hovered = false,
                MessageData::MenuButton(MenuButtonMessage::Selected) => self.selected = true,
                MessageData::MenuButton(MenuButtonMessage::Unselected) => self.selected = false,
                _ => {},
            }
        }
    }

    /// The messages the button sends itself during a frame, given whether the pointer is
    /// over it and whether the main mouse button was pressed: it becomes hovered when the
    /// pointer enters, selected when clicked, and unhovered when the pointer leaves.
    pub fn pointer_messages(&self, inside: bool, pressed: bool) -> (r: Vec<Message>)
        ensures
            views(r@) == if inside {
                (if !self.hovered {
                    seq![(self.id@, MessageData::MenuButton(MenuButtonMessage::Hovered))]
                } else {
                    Seq::empty()
                }) + (if pressed {
                    seq![(self.id@, MessageData::MenuButton(MenuButtonMessage::Selected))]
                } else {
                    Seq::empty()
                })
            } else if self.hovered {
                seq![(self.id@, MessageData::MenuButton(MenuButtonMessage::Unhovered))]
            } else {
                Seq::empty()
            },
    {
        let mut out: Vec<Message> = Vec::new();
        if inside {
            if !self.hovered {
                out.push(make_message(&self.id, MessageData::MenuButton(MenuButtonMessage::Hovered)));
            }
            if pressed {
                out.push(make_message(&self.id, MessageData::MenuButton(MenuButtonMessage::Selected)));
            }
        } else if self.hovered {
            out.push(make_message(&self.id, MessageData::MenuButton(MenuButtonMessage::Unhovered)));
        }
        assert(views(out@) =~= if inside {
            (if !self.hovered {
                seq![(self.id@, MessageData::MenuButton(MenuButtonMessage::Hovered))]
            } else {
                Seq::empty()
            }) + (if pressed {
                seq![(self.id@, MessageData::MenuButton(MenuButtonMessage::Selected))]
            } else {
                Seq::empty()
            })
        } else if self.hovered {
            seq![(self.id@, MessageData::MenuButton(MenuButtonMessage::Unhovered))]
        } else {
            Seq::empty()
        });
        out
    }
}

/// A column of buttons of which one is selected.
pub struct MenuButtonList {
    pub id: String,
    pub buttons: Vec<MenuButton>,
    pub selected: usize,
    pub sub_selected: usize,
}

/// The messages a list sends while it looks, among its first `n` buttons, for the one a
/// selection message addressed to `target` is about: a button whose id `target` begins
/// with is the one (the list announces it when the id is exactly `target`), every other
/// button is told to unselect.
pub open spec fn list_scan(
    buttons: Seq<MenuButton>,
    target: Seq<char>,
    list_id: Seq<char>,
    n: nat,
) -> Seq<(Seq<char>, MessageData)>
    decreases n,
{
    if n == 0 {
        Seq::empty()
    } else {
        let prev = list_scan(buttons, target, list_id, (n - 1) as nat);
        let b = buttons[n - 1];
        if starts_with(target, b.id@) {
            if target == b.id@ {
                prev.push(
                    (list_id, MessageData::MenuButtonList(MenuButtonListMessage::Selected((n - 1) as usize))),
                )
            } else {
                prev
            }
        } else {
            prev.push((b.id@, MessageData::MenuButton(MenuButtonMessage::Unselected)))
        }
    }
}

/// The last of the first `n` buttons whose id is `target`.
pub open spec fn last_with_id(buttons: Seq<MenuButton>, target: Seq<char>, n: nat) -> Option<nat>
    decreases n,
{
    if n == 0 {
        None
    } else if buttons[n - 1].id@ == target {
        Some((n - 1) as nat)
    } else {
        last_with_id(buttons, target, (n - 1) as nat)
    }
}

/// Whether `m` is a selection message that a list with id `list_id` looks into.
pub open spec fn selects_within(list_id: Seq<char>, m: (Seq<char>, MessageData)) -> bool {
    starts_with(m.0, list_id) && m.1 == MessageData::MenuButton(MenuButtonMessage::Selected)
}

/// The messages a list sends when asked to select another button: unselect the current
/// one, select the asked one.
pub open spec fn list_click(list: MenuButtonList, m: (Seq<char>, MessageData)) -> Seq<
    (Seq<char>, MessageData),
> {
    if m.0 == list.id@ {
        match m.1 {
            MessageData::MenuButtonList(MenuButtonListMessage::Click(idx)) => seq![
                (
                    list.buttons@[list.selected as int].id@,
                    MessageData::MenuButton(MenuButtonMessage::Unselected),
                ),
                (list.buttons@[idx as int].id@, MessageData::MenuButton(MenuButtonMessage::Selected)),
            ],
            _ => Seq::empty(),
        }
    } else {
        Seq::empty()
    }
}

/// Applies `m` to every button of `buttons`, keeping the rest of the state.
fn apply_to_buttons(buttons: &mut Vec<MenuButton>, message: &Message)
    ensures
        final(buttons)@.len() == old(buttons)@.len(),
        forall|i: int|
            0 <= i < old(buttons)@.len() ==> button_after(
                #[trigger] old(buttons)@[i],
                final(buttons)@[i],
                message@,
            ),
{
    let ghost start = buttons@;
    let mut i: usize = 0;
    while i < buttons.len()
        invariant
            i <= buttons@.len(),
            buttons@.len() == start.len(),
            forall|k: int| 0 <= k < i ==> button_after(#[trigger] start[k], buttons@[k], message@),
            forall|k: int| i <= k < start.len() ==> #[trigger] buttons@[k] == start[k],
        decreases start.len() - i,
    {
        let mut b = buttons.remove(i);
        b.handle_message(message);
        buttons.insert(i, b);
        i = i + 1;
    }
}

impl MenuButtonList {
    /// A list with id `id` and one button per entry of `titles`; the button at position
    /// `i` has the id `child_id(id, i)`.
    pub fn new(id: String, popout: Popout, titles: Vec<Vec<String>>) -> (r: Self)
        ensures
            r.id@ == id@,
            r.selected == 0,
            r.sub_selected == 0,
            r.buttons@.len() == titles@.len(),
            forall|i: int|
                0 <= i < titles@.len() ==> {
                    &&& (#[trigger] r.buttons@[i]).id@ == child_id(id@, i as nat)
                    &&& r.buttons@[i].title@ == titles@[i]@
                    &&& r.buttons@[i].popout == popout
                    &&& !r.buttons@[i].hovered
                    &&& !r.buttons@[i].selected
                },
    {
        let mut titles = titles;
        let ghost all = titles@;
        let mut rev: Vec<MenuButton> = Vec::new();
        while titles.len() > 0
            invariant
                titles@ == all.subrange(0, titles@.len() as int),
                rev@.len() + titles@.len() == all.len(),
                forall|k: int|
                    0 <= k < rev@.len() ==> {
                        let i = all.len() - 1 - k;
                        &&& (#[trigger] rev@[k]).id@ == child_id(id@, i as nat)
                        &&& rev@[k].title@ == all[i]@
                        &&& rev@[k].popout == popout
                        &&& !rev@[k].hovered
                        &&& !rev@[k].selected
                    },
            decreases titles@.len(),
        {
            let idx = titles.len() - 1;
            let title = titles.pop().unwrap();
            let child = make_child_id(&id, idx);
            rev.push(MenuButton::new(child, title, popout));
            assert(titles@ =~= all.subrange(0, titles@.len() as int));
        }
        let mut buttons: Vec<MenuButton> = Vec::new();
        while rev.len() > 0
            invariant
                buttons@.len() + rev@.len() == all.len(),
                forall|k: int|
                    0 <= k < rev@.len() ==> {
                        let i = all.len() - 1 - k;
                        &&& (#[trigger] rev@[k]).id@ == child_id(id@, i as nat)
                        &&& rev@[k].title@ == all[i]@
                        &&& rev@[k].popout == popout
                        &&& !rev@[k].hovered
                        &&& !rev@[k].selected
                    },
                forall|i: int|
                    0 <= i < buttons@.len() ==> {
                        &&& (#[trigger] buttons@[i]).id@ == child_id(id@, i as nat)
                        &&& buttons@[i].title@ == all[i]@
                        &&& buttons@[i].popout == popout
                        &&& !buttons@[i].hovered
                        &&& !buttons@[i].selected
                    },
            decreases rev@.len(),
        {
            let b = rev.pop().unwrap();
            buttons.push(b);
        }
        MenuButtonList { id, buttons, selected: 0, sub_selected: 0 }
    }

    /// Handles a message: a click addressed to the list unselects the current button and
    /// selects the clicked one; a selection of one of its buttons is announced, makes that
    /// button the selected one and unselects the others; every button then sees the
    /// message. Returns the messages to send, in order, and whether the selection changed
    /// so that the layout must be refreshed.
    pub fn handle_message(&mut self, message: &Message) -> (r: (Vec<Message>, bool))
        requires
            message@.0 == old(self).id@ ==> (message@.1 matches MessageData::MenuButtonList(
                MenuButtonListMessage::Click(idx),
            ) ==> idx < old(self).buttons@.len() && old(self).selected < old(self).buttons@.len()),
        ensures
            ({
                let m = message@;
                let o = *old(self);
                let scan = selects_within(o.id@, m);
                let found = last_with_id(o.buttons@, m.0, o.buttons@.len());
                &&& views(r.0@) == list_click(o, m) + if scan {
                    list_scan(o.buttons@, m.0, o.id@, o.buttons@.len())
                } else {
                    Seq::empty()
                }
                &&& r.1 == (scan && found is Some)
                &&& final(self).selected == if scan && found is Some {
                    found->0 as usize
                } else {
                    o.selected
                }
                &&& final(self).id@ == o.id@
                &&& final(self).sub_selected == o.sub_selected
                &&& final(self).buttons@.len() == o.buttons@.len()
                &&& forall|i: int|
                    0 <= i < o.buttons@.len() ==> if starts_with(m.0, o.id@) {
                        button_after(#[trigger] o.buttons@[i], final(self).buttons@[i], m)
                    } else {
                        button_same(o.buttons@[i], final(self).buttons@[i])
                    }
            }),
    {
        let ghost o = *self;
        let ghost m = message@;
        let mut out: Vec<Message> = Vec::new();
        let mut dirty = false;
        if message.target == self.id {
            if let MessageData::MenuButtonList(MenuButtonListMessage::Click(idx)) = message.data {
                out.push(
                    make_message(
                        &self.buttons[self.selected].id,
                        MessageData::MenuButton(MenuButtonMessage::Unselected),
                    ),
                );
                out.push(
                    make_message(
                        &self.buttons[idx].id,
                        MessageData::MenuButton(MenuButtonMessage::Selected),
                    ),
                );
            }
        }
        assert(views(out@) =~= list_click(o, m));
        if text_starts_with(message.target.as_str(), self.id.as_str()) {
            if message.data == MessageData::MenuButton(MenuButtonMessage::Selected) {
                let mut idx: usize = 0;
                while idx < self.buttons.len()
                    invariant
                        idx <= self.buttons@.len(),
                        self.buttons@ == o.buttons@,
                        self.id@ == o.id@,
                        self.sub_selected == o.sub_selected,
                        m == message@,
                        selects_within(o.id@, m),
                        views(out@) == list_click(o, m) + list_scan(o.buttons@, m.0, o.id@, idx as nat),
                        dirty == (last_with_id(o.buttons@, m.0, idx as nat) is Some),
                        self.selected == if dirty {
                            last_with_id(o.buttons@, m.0, idx as nat)->0 as usize
                        } else {
                            o.selected
                        },
                    decreases self.buttons@.len() - idx,
                {
                    let ghost before = out@;
                    proof {
                        lemma_starts_with_self(m.0);
                    }
                    if text_starts_with(message.target.as_str(), self.buttons[idx].id.as_str()) {
                        if message.target == self.buttons[idx].id {
                            let announce = make_message(
                                &self.id,
                                MessageData::MenuButtonList(MenuButtonListMessage::Selected(idx)),
                            );
                            out.push(announce);
                            proof {
                                lemma_views_push(before, announce);
                            }
                            self.selected = idx;
                            dirty = true;
                        }
                    } else {
                        let unselect = make_message(
                            &self.buttons[idx].id,
                            MessageData::MenuButton(MenuButtonMessage::Unselected),
                        );
                        out.push(unselect);
                        proof {
                            lemma_views_push(before, unselect);
                        }
                    }
                    proof {
                        assert(list_click(o, m) + list_scan(o.buttons@, m.0, o.id@, (idx + 1) as nat)
                            =~= views(out@));
                    }
                    idx = idx + 1;
                }
            }
            apply_to_buttons(&mut self.buttons, message);
        }
        proof {
            if !selects_within(o.id@, m) {
                assert(views(out@) =~= list_click(o, m) + Seq::empty());
            }
        }
        (out, dirty)
    }
}

/// A column of buttons, each with sub-buttons that are shown under it while it is the
/// selected one.
pub struct ExpandableList {
    pub id: String,
    pub buttons: Vec<(MenuButton, Vec<MenuButton>)>,
    pub selected: usize,
    pub sub_selected: usize,
}

/// The messages a list sends about the first `n` sub-buttons of a button when a selection
/// addressed to `target` is about one of them: that one is announced, the others are told
/// to unselect.
pub open spec fn sub_scan(
    subs: Seq<MenuButton>,
    target: Seq<char>,
    list_id: Seq<char>,
    n: nat,
) -> Seq<(Seq<char>, MessageData)>
    decreases n,
{
    if n == 0 {
        Seq::empty()
    } else {
        let prev = sub_scan(subs, target, list_id, (n - 1) as nat);
        let b = subs[n - 1];
        if target != b.id@ {
            prev.push((b.id@, MessageData::MenuButton(MenuButtonMessage::Unselected)))
        } else {
            prev.push(
                (list_id, MessageData::ExpandableList(ExpandableListMessage::SelectedSub((n - 1) as usize))),
            )
        }
    }
}

/// The messages an expandable list sends while it looks, among its first `n` buttons, for
/// the one a selection addressed to `target` is about: when it is a button, the list
/// announces it and selects its first sub-button; when it is below a button, the
/// sub-buttons are scanned; every other button is told to unselect.
pub open spec fn expand_scan(
    buttons: Seq<(MenuButton, Vec<MenuButton>)>,
    target: Seq<char>,
    list_id: Seq<char>,
    n: nat,
) -> Seq<(Seq<char>, MessageData)>
    decreases n,
{
    if n == 0 {
        Seq::empty()
    } else {
        let prev = expand_scan(buttons, target, list_id, (n - 1) as nat);
        let b = buttons[n - 1];
        if starts_with(target, b.0.id@) {
            if target == b.0.id@ {
                prev + seq![
                    (
                        list_id,
                        MessageData::ExpandableList(ExpandableListMessage::Selected((n - 1) as usize)),
                    ),
                    (b.1@[0].id@, MessageData::MenuButton(MenuButtonMessage::Selected)),
                ]
            } else {
                prev + sub_scan(b.1@, target, list_id, b.1@.len())
            }
        } else {
            prev.push((b.0.id@, MessageData::MenuButton(MenuButtonMessage::Unselected)))
        }
    }
}

/// The last of the first `n` buttons whose own id is `target`.
pub open spec fn last_head_with_id(
    buttons: Seq<(MenuButton, Vec<MenuButton>)>,
    target: Seq<char>,
    n: nat,
) -> Option<nat>
    decreases n,
{
    if n == 0 {
        None
    } else if buttons[n - 1].0.id@ == target {
        Some((n - 1) as nat)
    } else {
        last_head_with_id(buttons, target, (n - 1) as nat)
    }
}

/// The messages an expandable list sends when asked to select another button or
/// sub-button.
pub open spec fn expand_click(list: ExpandableList, m: (Seq<char>, MessageData)) -> Seq<
    (Seq<char>, MessageData),
> {
    if m.0 == list.id@ {
        match m.1 {
            MessageData::ExpandableList(ExpandableListMessage::Click(idx)) => seq![
                (
                    list.buttons@[list.selected as int].0.id@,
                    MessageData::MenuButton(MenuButtonMessage::Unselected),
                ),
                (
                    list.buttons@[idx as int].0.id@,
                    MessageData::MenuButton(MenuButtonMessage::Selected),
                ),
            ],
            MessageData::ExpandableList(ExpandableListMessage::ClickSub(idx)) => {
                let sub = list.buttons@[list.selected as int].1@[idx as int].id@;
                seq![
                    (sub, MessageData::MenuButton(MenuButtonMessage::Unselected)),
                    (sub, MessageData::MenuButton(MenuButtonMessage::Selected)),
                ]
            },
            _ => Seq::empty(),
        }
    } else {
        Seq::empty()
    }
}

/// The sub-button selected after `m`, when the button `sel` holds sub-buttons `subs`.
pub open spec fn sub_selected_after(
    old_sub: usize,
    subs: Seq<MenuButton>,
    m: (Seq<char>, MessageData),
) -> usize {
    if m.1 == MessageData::MenuButton(MenuButtonMessage::Selected) && last_with_id(
        subs,
        m.0,
        subs.len(),
    ) is Some {
        last_with_id(subs, m.0, subs.len())->0 as usize
    } else {
        old_sub
    }
}

fn build_buttons(parent: &String, popout: Popout, titles: Vec<String>) -> (r: Vec<MenuButton>)
    ensures
        r@.len() == titles@.len(),
        forall|j: int|
            0 <= j < titles@.len() ==> {
                &&& (#[trigger] r@[j]).id@ == child_id(parent@, j as nat)
                &&& r@[j].title@ == seq![titles@[j]]
                &&& r@[j].popout == popout
                &&& !r@[j].hovered
                &&& !r@[j].selected
            },
{
    let mut titles = titles;
    let ghost all = titles@;
    let n = titles.len();
    let mut out: Vec<MenuButton> = Vec::new();
    let mut j: usize = 0;
    while titles.len() > 0
        invariant
            j == out@.len(),
            all.len() == n,
            j + titles@.len() == all.len(),
            titles@ == all.subrange(j as int, all.len() as int),
            forall|k: int|
                0 <= k < j ==> {
                    &&& (#[trigger] out@[k]).id@ == child_id(parent@, k as nat)
                    &&& out@[k].title@ == seq![all[k]]
                    &&& out@[k].popout == popout
                    &&& !out@[k].hovered
                    &&& !out@[k].selected
                },
        decreases titles@.len(),
    {
        let t = titles.remove(0);
        let id = make_child_id(parent, j);
        let title = vec![t];
        out.push(MenuButton::new(id, title, popout));
        j = j + 1;
        assert(titles@ =~= all.subrange(j as int, all.len() as int));
    }
    out
}

impl ExpandableList {
    /// A list with id `id` and one button per entry of `titles`, each with one
    /// sub-button per name in the entry; the button at position `i` has the id
    /// `child_id(id, i)` and its sub-button at position `j` the id
    /// `child_id(child_id(id, i), j)`.
    pub fn new(id: String, popout: Popout, titles: Vec<(Vec<String>, Vec<String>)>) -> (r: Self)
        ensures
            r.id@ == id@,
            r.selected == 0,
            r.sub_selected == 0,
            r.buttons@.len() == titles@.len(),
            forall|i: int|
                0 <= i < titles@.len() ==> {
                    let b = #[trigger] r.buttons@[i];
                    &&& b.0.id@ == child_id(id@, i as nat)
                    &&& b.0.title@ == titles@[i].0@
                    &&& b.0.popout == popout
                    &&& !b.0.hovered
                    &&& !b.0.selected
                    &&& b.1@.len() == titles@[i].1@.len()
                    &&& forall|j: int|
                        0 <= j < b.1@.len() ==> {
                            &&& (#[trigger] b.1@[j]).id@ == child_id(child_id(id@, i as nat), j as nat)
                            &&& b.1@[j].title@ == seq![titles@[i].1@[j]]
                            &&& b.1@[j].popout == popout
                            &&& !b.1@[j].hovered
                            &&& !b.1@[j].selected
                        }
                },
    {
        let mut titles = titles;
        let ghost all = titles@;
        let n = titles.len();
        let mut buttons: Vec<(MenuButton, Vec<MenuButton>)> = Vec::new();
        let mut i: usize = 0;
        while titles.len() > 0
            invariant
                i == buttons@.len(),
                all.len() == n,
                i + titles@.len() == all.len(),
                titles@ == all.subrange(i as int, all.len() as int),
                forall|k: int|
                    0 <= k < i ==> {
                        let b = #[trigger] buttons@[k];
                        &&& b.0.id@ == child_id(id@, k as nat)
                        &&& b.0.title@ == all[k].0@
                        &&& b.0.popout == popout
                        &&& !b.0.hovered
                        &&& !b.0.selected
                        &&& b.1@.len() == all[k].1@.len()
                        &&& forall|j: int|
                            0 <= j < b.1@.len() ==> {
                                &&& (#[trigger] b.1@[j]).id@ == child_id(
                                    child_id(id@, k as nat),
                                    j as nat,
                                )
                                &&& b.1@[j].title@ == seq![all[k].1@[j]]
                                &&& b.1@[j].popout == popout
                                &&& !b.1@[j].hovered
                                &&& !b.1@[j].selected
                            }
                    },
            decreases titles@.len(),
        {
            let (title, diffs) = titles.remove(0);
            let head_id = make_child_id(&id, i);
            let subs = build_buttons(&head_id, popout, diffs);
            let head = MenuButton::new(head_id, title, popout);
            buttons.push((head, subs));
            i = i + 1;
            assert(titles@ =~= all.subrange(i as int, all.len() as int));
        }
        ExpandableList { id, buttons, selected: 0, sub_selected: 0 }
    }

    /// Handles a message: a click addressed to the list unselects the current button and
    /// selects the clicked one; a sub-button click unselects and reselects that sub-button
    /// of the selected button; a selection of one of its buttons is announced, selects
    /// that button's first sub-button and makes the button the selected one, while a
    /// selection of a sub-button is announced and the other sub-buttons of that button are
    /// unselected; buttons not concerned are unselected. Every button, and every
    /// sub-button of the selected button, then sees the message, and a selected sub-button
    /// becomes the selected sub-button. Returns the messages to send, in order, and whether
    /// the selection changed so that the layout must be refreshed.
    pub fn handle_message(&mut self, message: &Message) -> (r: (Vec<Message>, bool))
        requires
            message@.0 == old(self).id@ ==> (message@.1 matches MessageData::ExpandableList(
                ExpandableListMessage::Click(idx),
            ) ==> idx < old(self).buttons@.len() && old(self).selected < old(self).buttons@.len()),
            message@.0 == old(self).id@ ==> (message@.1 matches MessageData::ExpandableList(
                ExpandableListMessage::ClickSub(idx),
            ) ==> old(self).selected < old(self).buttons@.len() && idx < old(
                self,
            ).buttons@[old(self).selected as int].1@.len()),
            selects_within(old(self).id@, message@) ==> forall|i: int|
                0 <= i < old(self).buttons@.len() && (#[trigger] old(self).buttons@[i]).0.id@
                    == message@.0 ==> old(self).buttons@[i].1@.len() > 0,
        ensures
            ({
                let m = message@;
                let o = *old(self);
                let scan = selects_within(o.id@, m);
                let found = last_head_with_id(o.buttons@, m.0, o.buttons@.len());
                let sel = if scan && found is Some {
                    found->0 as usize
                } else {
                    o.selected
                };
                &&& views(r.0@) == expand_click(o, m) + if scan {
                    expand_scan(o.buttons@, m.0, o.id@, o.buttons@.len())
                } else {
                    Seq::empty()
                }
                &&& r.1 == (scan && found is Some)
                &&& final(self).selected == sel
                &&& final(self).id@ == o.id@
                &&& final(self).buttons@.len() == o.buttons@.len()
                &&& final(self).sub_selected == if starts_with(m.0, o.id@) && sel
                    < o.buttons@.len() {
                    sub_selected_after(o.sub_selected, o.buttons@[sel as int].1@, m)
                } else {
                    o.sub_selected
                }
                &&& forall|i: int|
                    0 <= i < o.buttons@.len() ==> {
                        let (a, b) = (#[trigger] o.buttons@[i], final(self).buttons@[i]);
                        &&& b.1@.len() == a.1@.len()
                        &&& if starts_with(m.0, o.id@) {
                            &&& button_after(a.0, b.0, m)
                            &&& forall|j: int|
                                0 <= j < a.1@.len() ==> if i == sel {
                                    button_after(#[trigger] a.1@[j], b.1@[j], m)
                                } else {
                                    button_same(a.1@[j], b.1@[j])
                                }
                        } else {
                            &&& button_same(a.0, b.0)
                            &&& forall|j: int|
                                0 <= j < a.1@.len() ==> button_same(#[trigger] a.1@[j], b.1@[j])
                        }
                    }
            }),
    {
        let ghost o = *self;
        let ghost m = message@;
        let mut out: Vec<Message> = Vec::new();
        let mut dirty = false;
        if message.target == self.id {
            match message.data {
                MessageData::ExpandableList(ExpandableListMessage::Click(idx)) => {
                    out.push(
                        make_message(
                            &self.buttons[self.selected].0.id,
                            MessageData::MenuButton(MenuButtonMessage::Unselected),
                        ),
                    );
                    out.push(
                        make_message(
                            &self.buttons[idx].0.id,
                            MessageData::MenuButton(MenuButtonMessage::Selected),
                        ),
                    );
                },
                MessageData::ExpandableList(ExpandableListMessage::ClickSub(idx)) => {
                    out.push(
                        make_message(
                            &self.buttons[self.selected].1[idx].id,
                            MessageData::MenuButton(MenuButtonMessage::Unselected),
                        ),
                    );
                    out.push(
                        make_message(
                            &self.buttons[self.selected].1[idx].id,
                            MessageData::MenuButton(MenuButtonMessage::Selected),
                        ),
                    );
                },
                _ => {},
            }
        }
        assert(views(out@) =~= expand_click(o, m));
        if text_starts_with(message.target.as_str(), self.id.as_str()) {
            if message.data == MessageData::MenuButton(MenuButtonMessage::Selected) {
                let mut idx: usize = 0;
                while idx < self.buttons.len()
                    invariant
                        idx <= self.buttons@.len(),
                        self.buttons@ == o.buttons@,
                        self.id@ == o.id@,
                        self.sub_selected == o.sub_selected,
                        m == message@,
                        selects_within(o.id@, m),
                        forall|i: int|
                            0 <= i < o.buttons@.len() && (#[trigger] o.buttons@[i]).0.id@ == m.0
                                ==> o.buttons@[i].1@.len() > 0,
                        views(out@) == expand_click(o, m) + expand_scan(
                            o.buttons@,
                            m.0,
                            o.id@,
                            idx as nat,
                        ),
                        dirty == (last_head_with_id(o.buttons@, m.0, idx as nat) is Some),
                        self.selected == if dirty {
                            last_head_with_id(o.buttons@, m.0, idx as nat)->0 as usize
                        } else {
                            o.selected
                        },
                    decreases self.buttons@.len() - idx,
                {
                    let ghost before = views(out@);
                    proof {
                        lemma_starts_with_self(m.0);
                    }
                    if text_starts_with(message.target.as_str(), self.buttons[idx].0.id.as_str()) {
                        if message.target == self.buttons[idx].0.id {
                            out.push(
                                make_message(
                                    &self.id,
                                    MessageData::ExpandableList(
                                        ExpandableListMessage::Selected(idx),
                                    ),
                                ),
                            );
                            out.push(
                                make_message(
                                    &self.buttons[idx].1[0].id,
                                    MessageData::MenuButton(MenuButtonMessage::Selected),
                                ),
                            );
                            assert(views(out@) =~= before + seq![
                                (
                                    o.id@,
                                    MessageData::ExpandableList(
                                        ExpandableListMessage::Selected(idx),
                                    ),
                                ),
                                (
                                    o.buttons@[idx as int].1@[0].id@,
                                    MessageData::MenuButton(MenuButtonMessage::Selected),
                                ),
                            ]);
                            self.selected = idx;
                            dirty = true;
                        } else {
                            let n = self.buttons[idx].1.len();
                            let mut j: usize = 0;
                            while j < n
                                invariant
                                    j <= n,
                                    n == o.buttons@[idx as int].1@.len(),
                                    idx < o.buttons@.len(),
                                    self.buttons@ == o.buttons@,
                                    self.id@ == o.id@,
                                    m == message@,
                                    views(out@) == before + sub_scan(
                                        o.buttons@[idx as int].1@,
                                        m.0,
                                        o.id@,
                                        j as nat,
                                    ),
                                decreases n - j,
                            {
                                let ghost before_sub = out@;
                                let msg = if message.target != self.buttons[idx].1[j].id {
                                    make_message(
                                        &self.buttons[idx].1[j].id,
                                        MessageData::MenuButton(MenuButtonMessage::Unselected),
                                    )
                                } else {
                                    make_message(
                                        &self.id,
                                        MessageData::ExpandableList(
                                            ExpandableListMessage::SelectedSub(j),
                                        ),
                                    )
                                };
                                out.push(msg);
                                proof {
                                    lemma_views_push(before_sub, msg);
                                }
                                j = j + 1;
                            }
                        }
                    } else {
                        let unselect = make_message(
                            &self.buttons[idx].0.id,
                            MessageData::MenuButton(MenuButtonMessage::Unselected),
                        );
                        let ghost before_push = out@;
                        out.push(unselect);
                        proof {
                            lemma_views_push(before_push, unselect);
                        }
                    }
                    proof {
                        assert(expand_click(o, m) + expand_scan(
                            o.buttons@,
                            m.0,
                            o.id@,
                            (idx + 1) as nat,
                        ) =~= views(out@));
                    }
                    idx = idx + 1;
                }
            }
            self.apply_message(message);
        }
        proof {
            if !selects_within(o.id@, m) {
                assert(views(out@) =~= expand_click(o, m) + Seq::empty());
            }
        }
        (out, dirty)
    }

    /// Lets every button, and every sub-button of the selected button, see the message;
    /// a selected sub-button becomes the selected sub-button.
    fn apply_message(&mut self, message: &Message)
        ensures
            ({
                let m = message@;
                let o = *old(self);
                &&& final(self).selected == o.selected
                &&& final(self).id@ == o.id@
                &&& final(self).buttons@.len() == o.buttons@.len()
                &&& final(self).sub_selected == if o.selected < o.buttons@.len() {
                    sub_selected_after(o.sub_selected, o.buttons@[o.selected as int].1@, m)
                } else {
                    o.sub_selected
                }
                &&& forall|i: int|
                    0 <= i < o.buttons@.len() ==> {
                        let (a, b) = (#[trigger] o.buttons@[i], final(self).buttons@[i]);
                        &&& b.1@.len() == a.1@.len()
                        &&& button_after(a.0, b.0, m)
                        &&& forall|j: int|
                            0 <= j < a.1@.len() ==> if i == o.selected {
                                button_after(#[trigger] a.1@[j], b.1@[j], m)
                            } else {
                                button_same(a.1@[j], b.1@[j])
                            }
                    }
            }),
    {
        let ghost o = *self;
        let ghost m = message@;
        let mut i: usize = 0;
        while i < self.buttons.len()
            invariant
                i <= self.buttons@.len(),
                self.buttons@.len() == o.buttons@.len(),
                self.selected == o.selected,
                self.id@ == o.id@,
                m == message@,
                forall|k: int| i <= k < o.buttons@.len() ==> #[trigger] self.buttons@[k] == o.buttons@[k],
                self.sub_selected == if o.selected < i {
                    sub_selected_after(o.sub_selected, o.buttons@[o.selected as int].1@, m)
                } else {
                    o.sub_selected
                },
                forall|k: int|
                    0 <= k < i ==> {
                        let (a, b) = (#[trigger] o.buttons@[k], self.buttons@[k]);
                        &&& b.1@.len() == a.1@.len()
                        &&& button_after(a.0, b.0, m)
                        &&& forall|j: int|
                            0 <= j < a.1@.len() ==> if k == o.selected {
                                button_after(#[trigger] a.1@[j], b.1@[j], m)
                            } else {
                                button_same(a.1@[j], b.1@[j])
                            }
                    },
            decreases o.buttons@.len() - i,
        {
            let (mut head, mut subs) = self.buttons.remove(i);
            let ghost subs0 = subs@;
            let ghost rest = self.buttons@;
            head.handle_message(message);
            if i == self.selected {
                let mut j: usize = 0;
                while j < subs.len()
                    invariant
                        j <= subs@.len(),
                        subs@.len() == subs0.len(),
                        m == message@,
                        self.buttons@ == rest,
                        self.selected == o.selected,
                        self.id@ == o.id@,
                        i == o.selected,
                        forall|k: int| j <= k < subs0.len() ==> #[trigger] subs@[k] == subs0[k],
                        forall|k: int| 0 <= k < j ==> button_after(#[trigger] subs0[k], subs@[k], m),
                        self.sub_selected == if m.1 == MessageData::MenuButton(
                            MenuButtonMessage::Selected,
                        ) && last_with_id(subs0, m.0, j as nat) is Some {
                            last_with_id(subs0, m.0, j as nat)->0 as usize
                        } else {
                            o.sub_selected
                        },
                    decreases subs0.len() - j,
                {
                    if message.target == subs[j].id {
                        let mut sb = subs.remove(j);
                        sb.handle_message(message);
                        subs.insert(j, sb);
                        if message.data == MessageData::MenuButton(MenuButtonMessage::Selected) {
                            self.sub_selected = j;
                        }
                    }
                    j = j + 1;
                }
            }
            self.buttons.insert(i, (head, subs));
            i = i + 1;
        }
    }
}

proof fn lemma_encode_concat(a: Seq<char>, b: Seq<char>)
    ensures
        encode_utf8(a + b) == encode_utf8(a) + encode_utf8(b),
    decreases a.len(),
{
    if a.len() > 0 {
        lemma_encode_concat(a.drop_first(), b);
        assert((a + b).drop_first() =~= a.drop_first() + b);
        assert((a + b)[0] == a[0]);
        assert(encode_utf8(a + b) =~= encode_utf8(a) + encode_utf8(b));
    } else {
        assert(a + b =~= b);
        assert(encode_utf8(a) + encode_utf8(b) =~= encode_utf8(b));
    }
}

/// A text begins with any text it is made of followed by more.
proof fn lemma_starts_with_concat(p: Seq<char>, rest: Seq<char>)
    ensures
        starts_with(p + rest, p),
{
    lemma_encode_concat(p, rest);
    let pb = encode_utf8(p);
    assert((pb + encode_utf8(rest)).subrange(0, pb.len() as int) =~= pb);
}

proof fn lemma_decimal_nonempty(n: nat)
    ensures
        decimal(n).len() >= 1,
        n >= 10 ==> decimal(n).len() >= 2,
    decreases n,
{
    if n >= 10 {
        lemma_decimal_nonempty(n / 10);
    }
}

proof fn lemma_decimal_injective(a: nat, b: nat)
    requires
        decimal(a) == decimal(b),
    ensures
        a == b,
    decreases a,
{
    lemma_decimal_nonempty(a);
    lemma_decimal_nonempty(b);
    if a < 10 && b < 10 {
        assert(digit(a) == decimal(a)[0]);
        assert(digit(b) == decimal(b)[0]);
    } else if a >= 10 && b >= 10 {
        let da = decimal(a);
        assert(da.last() == digit(a % 10));
        assert(decimal(b).last() == digit(b % 10));
        assert(decimal(a / 10) =~= da.drop_last());
        assert(decimal(b / 10) =~= decimal(b).drop_last());
        lemma_decimal_injective(a / 10, b / 10);
    } else {
        assert(decimal(a).len() != decimal(b).len());
    }
}

/// Children of one element at different positions get different ids.
pub proof fn lemma_child_ids_distinct(parent: Seq<char>, i: nat, k: nat)
    requires
        child_id(parent, i) == child_id(parent, k),
    ensures
        i == k,
{
    let pre = parent.push('-');
    assert(decimal(i) =~= child_id(parent, i).subrange(pre.len() as int, child_id(parent, i).len() as int));
    assert(decimal(k) =~= child_id(parent, k).subrange(pre.len() as int, child_id(parent, k).len() as int));
    lemma_decimal_injective(i, k);
}

/// In a list whose buttons carry the ids `MenuButtonList::new` gives them, a selection
/// message for the button at position `i` is one the list looks into, and the button it
/// finds is exactly that one; `handle_message` then selects it and reports a change.
pub proof fn lemma_child_selection_found(buttons: Seq<MenuButton>, list_id: Seq<char>, i: nat)
    requires
        i < buttons.len(),
        forall|k: int| 0 <= k < buttons.len() ==> (#[trigger] buttons[k]).id@ == child_id(list_id, k as nat),
    ensures
        selects_within(
            list_id,
            (child_id(list_id, i), MessageData::MenuButton(MenuButtonMessage::Selected)),
        ),
        last_with_id(buttons, child_id(list_id, i), buttons.len()) == Some(i),
{
    lemma_starts_with_concat(list_id, seq!['-'] + decimal(i));
    assert(list_id + (seq!['-'] + decimal(i)) =~= child_id(list_id, i));
    lemma_last_with_child_id(buttons, list_id, i, buttons.len());
}

proof fn lemma_last_with_child_id(buttons: Seq<MenuButton>, list_id: Seq<char>, i: nat, n: nat)
    requires
        i < n <= buttons.len(),
        forall|k: int| 0 <= k < buttons.len() ==> (#[trigger] buttons[k]).id@ == child_id(list_id, k as nat),
    ensures
        last_with_id(buttons, child_id(list_id, i), n) == Some(i),
    decreases n,
{
    if n - 1 != i {
        if buttons[n - 1].id@ == child_id(list_id, i) {
            lemma_child_ids_distinct(list_id, (n - 1) as nat, i);
        }
        lemma_last_with_child_id(buttons, list_id, i, (n - 1) as nat);
    }
}

proof fn lemma_ascii_pair_encoding(c: char, d: char)
    requires
        (c as u32) < 128,
        (d as u32) < 128,
    ensures
        encode_utf8(seq![c, d]).len() == 2,
{
    let s = seq![c, d];
    assert(s.drop_first() =~= seq![d]);
    assert(s.drop_first().drop_first() =~= Seq::<char>::empty());
    reveal_with_fuel(encode_utf8, 3);
}

/// The id of a child at a single-digit position, followed by anything, only begins with
/// the id of a child at a single-digit position when the two positions are equal.
proof fn lemma_single_digit_prefix(parent: Seq<char>, i: nat, k: nat, rest: Seq<char>)
    requires
        i < 10,
        k < 10,
        starts_with(child_id(parent, i) + rest, child_id(parent, k)),
    ensures
        i == k,
{
    let a = child_id(parent, i);
    let b = child_id(parent, k);
    assert(a =~= parent + seq!['-', digit(i)]);
    assert(b =~= parent + seq!['-', digit(k)]);
    lemma_encode_concat(parent, seq!['-', digit(i)]);
    lemma_encode_concat(parent, seq!['-', digit(k)]);
    lemma_encode_concat(a, rest);
    lemma_ascii_pair_encoding('-', digit(i));
    lemma_ascii_pair_encoding('-', digit(k));
    let ab = encode_utf8(a);
    let bb = encode_utf8(b);
    assert(ab.len() == bb.len());
    assert((ab + encode_utf8(rest)).subrange(0, bb.len() as int) =~= ab);
    vstd::utf8::encode_utf8_decode_utf8(a);
    vstd::utf8::encode_utf8_decode_utf8(b);
    lemma_child_ids_distinct(parent, i, k);
}

/// Ids of children at single-digit positions only begin with each other when equal.
proof fn lemma_single_digit_ids(parent: Seq<char>, i: nat, k: nat)
    requires
        i < 10,
        k < 10,
        starts_with(child_id(parent, i), child_id(parent, k)),
    ensures
        i == k,
{
    assert(child_id(parent, i) + Seq::<char>::empty() =~= child_id(parent, i));
    lemma_single_digit_prefix(parent, i, k, Seq::empty());
}

/// What a list of `n` buttons sends when the button at position `i` is selected: every
/// other button is told to unselect and the list announces `i`, in button order.
pub open spec fn selection_messages(list_id: Seq<char>, n: nat, i: nat) -> Seq<
    (Seq<char>, MessageData),
> {
    Seq::new(
        n,
        |k: int|
            if k == i {
                (list_id, MessageData::MenuButtonList(MenuButtonListMessage::Selected(i as usize)))
            } else {
                (child_id(list_id, k as nat), MessageData::MenuButton(MenuButtonMessage::Unselected))
            },
    )
}

proof fn lemma_scan_selection(buttons: Seq<MenuButton>, list_id: Seq<char>, i: nat, n: nat)
    requires
        i < buttons.len() <= 10,
        n <= buttons.len(),
        forall|k: int| 0 <= k < buttons.len() ==> (#[trigger] buttons[k]).id@ == child_id(list_id, k as nat),
    ensures
        list_scan(buttons, child_id(list_id, i), list_id, n) == selection_messages(list_id, n, i),
    decreases n,
{
    if n > 0 {
        lemma_scan_selection(buttons, list_id, i, (n - 1) as nat);
        let k = (n - 1) as nat;
        let target = child_id(list_id, i);
        assert(buttons[k as int].id@ == child_id(list_id, k));
        if k == i {
            lemma_starts_with_self(target);
        } else {
            if starts_with(target, child_id(list_id, k)) {
                lemma_single_digit_ids(list_id, i, k);
            }
        }
        assert(list_scan(buttons, target, list_id, n) =~= selection_messages(list_id, n, i));
    } else {
        assert(list_scan(buttons, child_id(list_id, i), list_id, 0) =~= selection_messages(list_id, 0, i));
    }
}

/// In a list of at most ten buttons that carry the ids `MenuButtonList::new` gives them,
/// selecting the button at position `i` tells every other button to unselect and announces
/// `i`: `handle_message` sends exactly `selection_messages` and makes `i` the selected one.
pub proof fn lemma_selection_unselects_others(
    buttons: Seq<MenuButton>,
    list_id: Seq<char>,
    i: nat,
)
    requires
        i < buttons.len() <= 10,
        forall|k: int| 0 <= k < buttons.len() ==> (#[trigger] buttons[k]).id@ == child_id(list_id, k as nat),
    ensures
        selects_within(
            list_id,
            (child_id(list_id, i), MessageData::MenuButton(MenuButtonMessage::Selected)),
        ),
        last_with_id(buttons, child_id(list_id, i), buttons.len()) == Some(i),
        list_scan(buttons, child_id(list_id, i), list_id, buttons.len()) == selection_messages(
            list_id,
            buttons.len(),
            i,
        ),
{
    lemma_child_selection_found(buttons, list_id, i);
    lemma_scan_selection(buttons, list_id, i, buttons.len());
}

/// Unselect messages for the buttons at positions `from .. to` of the list `list_id`.
pub open spec fn unselect_range(list_id: Seq<char>, from: nat, to: nat) -> Seq<
    (Seq<char>, MessageData),
> {
    Seq::new(
        (to - from) as nat,
        |k: int|
            (
                child_id(list_id, (from + k) as nat),
                MessageData::MenuButton(MenuButtonMessage::Unselected),
            ),
    )
}

/// What an expandable list sends about the `m` sub-buttons of its button at position `i`
/// when the sub-button at position `j` is selected: the others are told to unselect and
/// the list announces `j`.
pub open spec fn sub_selection_messages(list_id: Seq<char>, i: nat, m: nat, j: nat) -> Seq<
    (Seq<char>, MessageData),
> {
    Seq::new(
        m,
        |l: int|
            if l == j {
                (list_id, MessageData::ExpandableList(ExpandableListMessage::SelectedSub(j as usize)))
            } else {
                (
                    child_id(child_id(list_id, i), l as nat),
                    MessageData::MenuButton(MenuButtonMessage::Unselected),
                )
            },
    )
}

/// The buttons carry the ids `ExpandableList::new` gives them.
pub open spec fn expandable_ids(buttons: Seq<(MenuButton, Vec<MenuButton>)>, list_id: Seq<char>) -> bool {
    &&& forall|k: int| 0 <= k < buttons.len() ==> (#[trigger] buttons[k]).0.id@ == child_id(list_id, k as nat)
    &&& forall|k: int, l: int|
        0 <= k < buttons.len() && 0 <= l < buttons[k].1@.len() ==> (#[trigger] buttons[k].1@[l]).id@
            == child_id(child_id(list_id, k as nat), l as nat)
}

proof fn lemma_head_scan(
    buttons: Seq<(MenuButton, Vec<MenuButton>)>,
    list_id: Seq<char>,
    i: nat,
    n: nat,
)
    requires
        i < buttons.len() <= 10,
        n <= buttons.len(),
        expandable_ids(buttons, list_id),
    ensures
        expand_scan(buttons, child_id(list_id, i), list_id, n) == if n <= i {
            unselect_range(list_id, 0, n)
        } else {
            unselect_range(list_id, 0, i) + seq![
                (list_id, MessageData::ExpandableList(ExpandableListMessage::Selected(i as usize))),
                (buttons[i as int].1@[0].id@, MessageData::MenuButton(MenuButtonMessage::Selected)),
            ] + unselect_range(list_id, i + 1, n)
        },
    decreases n,
{
    let target = child_id(list_id, i);
    if n > 0 {
        lemma_head_scan(buttons, list_id, i, (n - 1) as nat);
        let k = (n - 1) as nat;
        assert(buttons[k as int].0.id@ == child_id(list_id, k));
        if k == i {
            lemma_starts_with_self(target);
        } else if starts_with(target, child_id(list_id, k)) {
            lemma_single_digit_ids(list_id, i, k);
        }
        assert(expand_scan(buttons, target, list_id, n) =~= if n <= i {
            unselect_range(list_id, 0, n)
        } else {
            unselect_range(list_id, 0, i) + seq![
                (list_id, MessageData::ExpandableList(ExpandableListMessage::Selected(i as usize))),
                (buttons[i as int].1@[0].id@, MessageData::MenuButton(MenuButtonMessage::Selected)),
            ] + unselect_range(list_id, i + 1, n)
        });
    } else {
        assert(expand_scan(buttons, target, list_id, 0) =~= unselect_range(list_id, 0, 0));
    }
}

/// In an expandable list of at most ten buttons that carry the ids `ExpandableList::new`
/// gives them, selecting the button at position `i` is a selection the list looks into,
/// finds exactly that button, tells every other button to unselect, announces `i` and
/// selects the first sub-button of `i`, in button order.
pub proof fn lemma_expandable_head_selection(
    buttons: Seq<(MenuButton, Vec<MenuButton>)>,
    list_id: Seq<char>,
    i: nat,
)
    requires
        i < buttons.len() <= 10,
        expandable_ids(buttons, list_id),
    ensures
        selects_within(
            list_id,
            (child_id(list_id, i), MessageData::MenuButton(MenuButtonMessage::Selected)),
        ),
        last_head_with_id(buttons, child_id(list_id, i), buttons.len()) == Some(i),
        expand_scan(buttons, child_id(list_id, i), list_id, buttons.len()) == unselect_range(
            list_id,
            0,
            i,
        ) + seq![
            (list_id, MessageData::ExpandableList(ExpandableListMessage::Selected(i as usize))),
            (buttons[i as int].1@[0].id@, MessageData::MenuButton(MenuButtonMessage::Selected)),
        ] + unselect_range(list_id, i + 1, buttons.len()),
{
    lemma_starts_with_concat(list_id, seq!['-'] + decimal(i));
    assert(list_id + (seq!['-'] + decimal(i)) =~= child_id(list_id, i));
    lemma_last_head_with_child_id(buttons, list_id, i, buttons.len());
    lemma_head_scan(buttons, list_id, i, buttons.len());
}

proof fn lemma_last_head_with_child_id(
    buttons: Seq<(MenuButton, Vec<MenuButton>)>,
    list_id: Seq<char>,
    i: nat,
    n: nat,
)
    requires
        i < n <= buttons.len(),
        expandable_ids(buttons, list_id),
    ensures
        last_head_with_id(buttons, child_id(list_id, i), n) == Some(i),
    decreases n,
{
    if n - 1 != i {
        assert(buttons[n - 1].0.id@ == child_id(list_id, (n - 1) as nat));
        if buttons[n - 1].0.id@ == child_id(list_id, i) {
            lemma_child_ids_distinct(list_id, (n - 1) as nat, i);
        }
        lemma_last_head_with_child_id(buttons, list_id, i, (n - 1) as nat);
    }
}

proof fn lemma_sub_scan(subs: Seq<MenuButton>, list_id: Seq<char>, i: nat, j: nat, m: nat)
    requires
        m <= subs.len(),
        forall|l: int| 0 <= l < subs.len() ==> (#[trigger] subs[l]).id@ == child_id(child_id(list_id, i), l as nat),
    ensures
        sub_scan(subs, child_id(child_id(list_id, i), j), list_id, m) == sub_selection_messages(
            list_id,
            i,
            m,
            j,
        ),
    decreases m,
{
    let target = child_id(child_id(list_id, i), j);
    if m > 0 {
        lemma_sub_scan(subs, list_id, i, j, (m - 1) as nat);
        let l = (m - 1) as nat;
        assert(subs[l as int].id@ == child_id(child_id(list_id, i), l));
        if l != j && target == subs[l as int].id@ {
            lemma_child_ids_distinct(child_id(list_id, i), l, j);
        }
        assert(sub_scan(subs, target, list_id, m) =~= sub_selection_messages(list_id, i, m, j));
    } else {
        assert(sub_scan(subs, target, list_id, 0) =~= sub_selection_messages(list_id, i, 0, j));
    }
}

proof fn lemma_sub_target(list_id: Seq<char>, i: nat, j: nat, k: nat)
    requires
        i < 10,
        k < 10,
    ensures
        starts_with(child_id(child_id(list_id, i), j), child_id(list_id, i)),
        starts_with(child_id(child_id(list_id, i), j), child_id(list_id, k)) ==> k == i,
        child_id(child_id(list_id, i), j) != child_id(list_id, k),
{
    let head = child_id(list_id, i);
    let rest = seq!['-'] + decimal(j);
    assert(head + rest =~= child_id(head, j));
    lemma_starts_with_concat(head, rest);
    lemma_decimal_nonempty(j);
    if starts_with(child_id(head, j), child_id(list_id, k)) {
        lemma_single_digit_prefix(list_id, i, k, rest);
    }
    lemma_decimal_nonempty(i);
    lemma_decimal_nonempty(k);
    if child_id(head, j) == child_id(list_id, k) {
        lemma_starts_with_self(child_id(list_id, k));
        lemma_single_digit_prefix(list_id, i, k, rest);
        assert(child_id(head, j).len() > child_id(list_id, k).len());
    }
}

proof fn lemma_sub_scan_heads(
    buttons: Seq<(MenuButton, Vec<MenuButton>)>,
    list_id: Seq<char>,
    i: nat,
    j: nat,
    n: nat,
)
    requires
        i < buttons.len() <= 10,
        n <= buttons.len(),
        expandable_ids(buttons, list_id),
    ensures
        expand_scan(buttons, child_id(child_id(list_id, i), j), list_id, n) == if n <= i {
            unselect_range(list_id, 0, n)
        } else {
            unselect_range(list_id, 0, i) + sub_selection_messages(
                list_id,
                i,
                buttons[i as int].1@.len(),
                j,
            ) + unselect_range(list_id, i + 1, n)
        },
        last_head_with_id(buttons, child_id(child_id(list_id, i), j), n) is None,
    decreases n,
{
    let target = child_id(child_id(list_id, i), j);
    if n > 0 {
        lemma_sub_scan_heads(buttons, list_id, i, j, (n - 1) as nat);
        let k = (n - 1) as nat;
        assert(buttons[k as int].0.id@ == child_id(list_id, k));
        lemma_sub_target(list_id, i, j, k);
        if k == i {
            let subs = buttons[i as int].1@;
            assert forall|l: int| 0 <= l < subs.len() implies (#[trigger] subs[l]).id@ == child_id(
                child_id(list_id, i),
                l as nat,
            ) by {
                assert(buttons[i as int].1@[l] == subs[l]);
            }
            lemma_sub_scan(subs, list_id, i, j, subs.len());
        }
        assert(expand_scan(buttons, target, list_id, n) =~= if n <= i {
            unselect_range(list_id, 0, n)
        } else {
            unselect_range(list_id, 0, i) + sub_selection_messages(
                list_id,
                i,
                buttons[i as int].1@.len(),
                j,
            ) + unselect_range(list_id, i + 1, n)
        });
    } else {
        assert(expand_scan(buttons, target, list_id, 0) =~= unselect_range(list_id, 0, 0));
    }
}

/// In an expandable list of at most ten buttons, the button at position `i` having at most
/// ten sub-buttons, all with the ids `ExpandableList::new` gives them: selecting the
/// sub-button at position `j` of `i` is a selection the list looks into; no button is
/// found, so the selected button stays; every other button and every other sub-button of
/// `i` is told to unselect, and the list announces `j`; among the sub-buttons of `i`, the
/// one found is exactly `j`.
pub proof fn lemma_expandable_sub_selection(
    buttons: Seq<(MenuButton, Vec<MenuButton>)>,
    list_id: Seq<char>,
    i: nat,
    j: nat,
)
    requires
        i < buttons.len() <= 10,
        j < buttons[i as int].1@.len() <= 10,
        expandable_ids(buttons, list_id),
    ensures
        selects_within(
            list_id,
            (child_id(child_id(list_id, i), j), MessageData::MenuButton(MenuButtonMessage::Selected)),
        ),
        last_head_with_id(buttons, child_id(child_id(list_id, i), j), buttons.len()) is None,
        expand_scan(buttons, child_id(child_id(list_id, i), j), list_id, buttons.len())
            == unselect_range(list_id, 0, i) + sub_selection_messages(
            list_id,
            i,
            buttons[i as int].1@.len(),
            j,
        ) + unselect_range(list_id, i + 1, buttons.len()),
        last_with_id(
            buttons[i as int].1@,
            child_id(child_id(list_id, i), j),
            buttons[i as int].1@.len(),
        ) == Some(j),
{
    let head = child_id(list_id, i);
    lemma_starts_with_concat(list_id, seq!['-'] + decimal(i));
    assert(list_id + (seq!['-'] + decimal(i)) =~= head);
    lemma_starts_with_concat(head, seq!['-'] + decimal(j));
    assert(head + (seq!['-'] + decimal(j)) =~= child_id(head, j));
    lemma_starts_with_trans(child_id(head, j), head, list_id);
    lemma_sub_scan_heads(buttons, list_id, i, j, buttons.len());
    let subs = buttons[i as int].1@;
    assert forall|l: int| 0 <= l < subs.len() implies (#[trigger] subs[l]).id@ == child_id(head, l as nat) by {
        assert(buttons[i as int].1@[l] == subs[l]);
    }
    lemma_last_with_child_id(subs, head, j, subs.len());
}

proof fn lemma_starts_with_trans(a: Seq<char>, b: Seq<char>, c: Seq<char>)
    requires
        starts_with(a, b),
        starts_with(b, c),
    ensures
        starts_with(a, c),
{
    let ab = encode_utf8(a);
    let bb = encode_utf8(b);
    let cb = encode_utf8(c);
    assert(ab.subrange(0, cb.len() as int) =~= bb.subrange(0, cb.len() as int));
}

/// The selected sub-button moves only on a selection: any other message (an unselect,
/// a hover, a click) leaves it where it was, and selecting the sub-button at position
/// `j` of a button whose sub-buttons carry child ids makes `j` the selected one.
pub proof fn lemma_sub_selection_moves_only_on_select(
    old_sub: usize,
    subs: Seq<MenuButton>,
    head: Seq<char>,
    m: (Seq<char>, MessageData),
    j: nat,
)
    requires
        j < subs.len() <= usize::MAX,
        forall|l: int| 0 <= l < subs.len() ==> (#[trigger] subs[l]).id@ == child_id(head, l as nat),
    ensures
        m.1 != MessageData::MenuButton(MenuButtonMessage::Selected) ==> sub_selected_after(
            old_sub,
            subs,
            m,
        ) == old_sub,
        sub_selected_after(
            old_sub,
            subs,
            (child_id(head, j), MessageData::MenuButton(MenuButtonMessage::Selected)),
        ) == j,
{
    lemma_last_with_child_id(subs, head, j, subs.len());
}

} // verus!
