use vstd::prelude::*;
use crate::ui::{
    child_id, views, ExpandableList, ExpandableListMessage, Message, MessageData, Popout,
};

verus! {

/// A difficulty of a chart.
#[derive(Debug, Clone)]
pub struct DifficultyInfo {
    pub id: u32,
    pub name: String,
}

/// A chart with its difficulties.
#[derive(Debug, Clone)]
pub struct ChartInfo {
    pub id: u32,
    pub title: String,
    pub difficulties: Vec<DifficultyInfo>,
}

/// `chart` has this id, title and these difficulties (id and name each), in this order.
pub open spec fn chart_is(
    chart: ChartInfo,
    id: u32,
    title: Seq<char>,
    difficulties: Seq<(u32, Seq<char>)>,
) -> bool {
    &&& chart.id == id
    &&& chart.title@ == title
    &&& chart.difficulties@.len() == difficulties.len()
    &&& forall|i: int|
        0 <= i < difficulties.len() ==> (#[trigger] chart.difficulties@[i]).id == difficulties[i].0
            && chart.difficulties@[i].name@ == difficulties[i].1
}

fn difficulty(id: u32, name: &str) -> (r: DifficultyInfo)
    ensures
        r.id == id,
        r.name@ == name@,
{
    DifficultyInfo { id, name: name.to_owned() }
}

/// The charts that come with the game.
pub fn get_charts() -> (r: Vec<ChartInfo>)
    ensures
        r@.len() == 3,
        chart_is(r@[0], 1, "Kizuato"@, seq![(1u32, "Platter"@), (2u32, "Ascendance's Rain"@)]),
        chart_is(r@[1], 2, "Padoru"@, seq![(3u32, "Salad"@), (4u32, "Platter"@)]),
        chart_is(
            r@[2],
            3,
            "Troublemaker"@,
            seq![
                (5u32, "Cup"@),
                (6u32, "tocean's Salad"@),
                (7u32, "Platter"@),
                (8u32, "MBomb's Light Rain"@),
                (9u32, "Equim's Rain"@),
                (10u32, "Kagari's Himedose"@),
            ],
        ),
{
    let kizuato = ChartInfo {
        id: 1,
        title: "Kizuato".to_owned(),
        difficulties: vec![difficulty(1, "Platter"), difficulty(2, "Ascendance's Rain")],
    };
    let padoru = ChartInfo {
        id: 2,
        title: "Padoru".to_owned(),
        difficulties: vec![difficulty(3, "Salad"), difficulty(4, "Platter")],
    };
    let troublemaker = ChartInfo {
        id: 3,
        title: "Troublemaker".to_owned(),
        difficulties: vec![
            difficulty(5, "Cup"),
            difficulty(6, "tocean's Salad"),
            difficulty(7, "Platter"),
            difficulty(8, "MBomb's Light Rain"),
            difficulty(9, "Equim's Rain"),
            difficulty(10, "Kagari's Himedose"),
        ],
    };
    let r = vec![kizuato, padoru, troublemaker];
    assert(chart_is(
        r@[2],
        3,
        "Troublemaker"@,
        seq![
            (5u32, "Cup"@),
            (6u32, "tocean's Salad"@),
            (7u32, "Platter"@),
            (8u32, "MBomb's Light Rain"@),
            (9u32, "Equim's Rain"@),
            (10u32, "Kagari's Himedose"@),
        ],
    ));
    r
}

impl ChartInfo {
    /// The difficulty at position `idx`.
    pub fn difficulty(&self, idx: usize) -> (r: &DifficultyInfo)
        requires
            idx < self.difficulties@.len(),
        ensures
            *r == self.difficulties@[idx as int],
    {
        &self.difficulties[idx]
    }
}

/// The entries of the chart list: each chart's title, with the names of its difficulties
/// under it.
pub fn chart_list_titles(charts: &Vec<ChartInfo>) -> (r: Vec<(Vec<String>, Vec<String>)>)
    ensures
        r@.len() == charts@.len(),
        forall|i: int|
            0 <= i < charts@.len() ==> {
                &&& (#[trigger] r@[i]).0@ == seq![charts@[i].title]
                &&& r@[i].1@.len() == charts@[i].difficulties@.len()
                &&& forall|j: int|
                    0 <= j < r@[i].1@.len() ==> #[trigger] r@[i].1@[j]
                        == charts@[i].difficulties@[j].name
            },
{
    let mut out: Vec<(Vec<String>, Vec<String>)> = Vec::new();
    let mut i: usize = 0;
    while i < charts.len()
        invariant
            i <= charts@.len(),
            out@.len() == i,
            forall|k: int|
                0 <= k < i ==> {
                    &&& (#[trigger] out@[k]).0@ == seq![charts@[k].title]
                    &&& out@[k].1@.len() == charts@[k].difficulties@.len()
                    &&& forall|j: int|
                        0 <= j < out@[k].1@.len() ==> #[trigger] out@[k].1@[j]
                            == charts@[k].difficulties@[j].name
                },
        decreases charts@.len() - i,
    {
        let chart = &charts[i];
        let mut names: Vec<String> = Vec::new();
        let mut j: usize = 0;
        while j < chart.difficulties.len()
            invariant
                j <= chart.difficulties@.len(),
                names@.len() == j,
                forall|l: int| 0 <= l < j ==> #[trigger] names@[l] == chart.difficulties@[l].name,
            decreases chart.difficulties@.len() - j,
        {
            names.push(chart.difficulties[j].name.clone());
            j = j + 1;
        }
        let title = vec![chart.title.clone()];
        assert(title@ =~= seq![chart.title]);
        out.push((title, names));
        i = i + 1;
    }
    out
}

/// The chart list of the select screen, with the message that selects its first chart
/// once the screen handles its messages.
pub fn new_chart_list(charts: &Vec<ChartInfo>) -> (r: (ExpandableList, Message))
    ensures
        r.0.id@ == "button_list"@,
        r.0.selected == 0,
        r.0.sub_selected == 0,
        r.0.buttons@.len() == charts@.len(),
        forall|i: int|
            0 <= i < charts@.len() ==> {
                let b = #[trigger] r.0.buttons@[i];
                &&& b.0.id@ == child_id("button_list"@, i as nat)
                &&& b.0.title@ == seq![charts@[i].title]
                &&& b.0.popout == Popout::Left
                &&& !b.0.hovered
                &&& !b.0.selected
                &&& b.1@.len() == charts@[i].difficulties@.len()
                &&& forall|j: int|
                    0 <= j < b.1@.len() ==> {
                        &&& (#[trigger] b.1@[j]).id@ == child_id(
                            child_id("button_list"@, i as nat),
                            j as nat,
                        )
                        &&& b.1@[j].title@ == seq![charts@[i].difficulties@[j].name]
                        &&& b.1@[j].popout == Popout::Left
                        &&& !b.1@[j].hovered
                        &&& !b.1@[j].selected
                    }
            },
        r.1@ == ("button_list"@, MessageData::ExpandableList(ExpandableListMessage::Click(0))),
{
    let titles = chart_list_titles(charts);
    let list = ExpandableList::new("button_list".to_owned(), Popout::Left, titles);
    let first = Message {
        target: list.id.clone(),
        data: MessageData::ExpandableList(ExpandableListMessage::Click(0)),
    };
    (list, first)
}

/// Position after `current` in a list of `len` entries, wrapping around to the first.
pub open spec fn next_position(current: int, len: int) -> int {
    (current + 1) % len
}

/// Position before `current` in a list of `len` entries, wrapping around to the last.
pub open spec fn previous_position(current: int, len: int) -> int {
    (current + len - 1) % len
}

/// The entry to select when moving forward from `current` in a list of `len` entries.
pub fn next_index(current: usize, len: usize) -> (r: usize)
    requires
        current < len,
    ensures
        r == next_position(current as int, len as int),
        r < len,
{
    (current + 1) % len
}

/// The entry to select when moving back from `current` in a list of `len` entries.
pub fn previous_index(current: usize, len: usize) -> (r: usize)
    requires
        current < len,
    ensures
        r == previous_position(current as int, len as int),
        r < len,
{
    if current == 0 {
        assert((len - 1) % (len as int) == len - 1) by (nonlinear_arith)
            requires
                len > 0,
        ;
        len - 1
    } else {
        assert((current + len - 1) % (len as int) == current - 1) by (nonlinear_arith)
            requires
                0 < current < len,
        ;
        current - 1
    }
}

/// Moving forward and then back, or back and then forward, returns to the same entry.
pub proof fn lemma_navigation_round_trip(current: int, len: int)
    requires
        0 <= current < len,
    ensures
        previous_position(next_position(current, len), len) == current,
        next_position(previous_position(current, len), len) == current,
{
    if current + 1 < len {
        assert((current + 1) % len == current + 1) by (nonlinear_arith)
            requires
                0 <= current + 1 < len,
        ;
    } else {
        assert((current + 1) % len == 0) by (nonlinear_arith)
            requires
                current + 1 == len,
                len > 0,
        ;
    }
    let n = next_position(current, len);
    assert(previous_position(n, len) == current) by (nonlinear_arith)
        requires
            n == (if current + 1 < len { current + 1 } else { 0 }),
            0 <= current < len,
            previous_position(n, len) == (n + len - 1) % len,
    ;
    if current == 0 {
        assert((current + len - 1) % len == len - 1) by (nonlinear_arith)
            requires
                current == 0,
                len > 0,
        ;
    } else {
        assert((current + len - 1) % len == current - 1) by (nonlinear_arith)
            requires
                0 < current < len,
        ;
    }
    let p = previous_position(current, len);
    assert(next_position(p, len) == current) by (nonlinear_arith)
        requires
            p == (if current == 0 { len - 1 } else { current - 1 }),
            0 <= current < len,
            next_position(p, len) == (p + 1) % len,
    ;
}

/// The arrow keys pressed on the select screen during a frame.
#[derive(Debug, Clone, Copy)]
pub struct SelectKeys {
    pub right: bool,
    pub left: bool,
    pub down: bool,
    pub up: bool,
}

/// What the arrow keys ask of the chart list `list`: right (or else left) clicks the
/// next (or previous) chart, wrapping around; down and up click the next and previous
/// difficulty of the selected chart, wrapping around.
pub open spec fn select_key_clicks(list: ExpandableList, keys: SelectKeys) -> Seq<MessageData> {
    let n = list.buttons@.len() as int;
    let m = list.buttons@[list.selected as int].1@.len() as int;
    let sub = list.sub_selected as int;
    let chart = if keys.right {
        seq![
            MessageData::ExpandableList(
                ExpandableListMessage::Click(next_position(list.selected as int, n) as usize),
            ),
        ]
    } else if keys.left {
        seq![
            MessageData::ExpandableList(
                ExpandableListMessage::Click(previous_position(list.selected as int, n) as usize),
            ),
        ]
    } else {
        Seq::empty()
    };
    let down = if keys.down {
        seq![MessageData::ExpandableList(ExpandableListMessage::ClickSub(((sub + 1) % m) as usize))]
    } else {
        Seq::empty()
    };
    let up = if keys.up {
        seq![
            MessageData::ExpandableList(ExpandableListMessage::ClickSub(((sub + m - 1) % m) as usize)),
        ]
    } else {
        Seq::empty()
    };
    chart + down + up
}

fn list_message(list: &ExpandableList, data: MessageData) -> (r: Message)
    ensures
        r@ == (list.id@, data),
{
    Message { target: list.id.clone(), data }
}

/// The messages the select screen sends its chart list for the arrow keys of a frame,
/// in the order `select_key_clicks` gives.
pub fn select_key_messages(list: &ExpandableList, keys: SelectKeys) -> (r: Vec<Message>)
    requires
        list.selected < list.buttons@.len(),
        keys.down || keys.up ==> list.buttons@[list.selected as int].1@.len() > 0,
        keys.down ==> list.sub_selected < usize::MAX,
        keys.up ==> list.sub_selected + list.buttons@[list.selected as int].1@.len()
            <= usize::MAX,
    ensures
        views(r@) == select_key_clicks(*list, keys).map_values(
            |d: MessageData| (list.id@, d),
        ),
{
    let n = list.buttons.len();
    let mut out: Vec<Message> = Vec::new();
    if keys.right {
        let next = next_index(list.selected, n);
        out.push(list_message(list, MessageData::ExpandableList(ExpandableListMessage::Click(next))));
    } else if keys.left {
        let prev = previous_index(list.selected, n);
        out.push(list_message(list, MessageData::ExpandableList(ExpandableListMessage::Click(prev))));
    }
    if keys.down {
        let m = list.buttons[list.selected].1.len();
        let sub = (list.sub_selected + 1) % m;
        out.push(list_message(list, MessageData::ExpandableList(ExpandableListMessage::ClickSub(sub))));
    }
    if keys.up {
        let m = list.buttons[list.selected].1.len();
        let sub = (list.sub_selected + m - 1) % m;
        out.push(list_message(list, MessageData::ExpandableList(ExpandableListMessage::ClickSub(sub))));
    }
    assert(views(out@) =~= select_key_clicks(*list, keys).map_values(
        |d: MessageData| (list.id@, d),
    ));
    out
}

/// The overlays that can be shown over a screen.
#[derive(Debug, Clone, Copy, PartialEq, Eq, Structural)]
pub enum OverlayKind {
    Chat,
    Settings,
    Login,
    Mods,
}

/// The overlay keys pressed during a frame.
#[derive(Debug, Clone, Copy)]
pub struct OverlayKeys {
    /// The chat key (F9).
    pub chat: bool,
    /// The settings key (F1).
    pub settings: bool,
    /// The login key (F7).
    pub login: bool,
}

/// Opens `kind`, or closes it if it is the overlay shown.
pub open spec fn toggle(current: Option<OverlayKind>, kind: OverlayKind) -> Option<OverlayKind> {
    if current == Some(kind) {
        None
    } else {
        Some(kind)
    }
}

/// The overlay after one frame: the chat key toggles the chat while the session is
/// connected, then the settings key toggles the settings, then the login key toggles the
/// login form while there is no session. `session` is `Some(connected)` once a login
/// token exists.
pub open spec fn overlay_after(
    current: Option<OverlayKind>,
    keys: OverlayKeys,
    session: Option<bool>,
) -> Option<OverlayKind> {
    let a = if session == Some(true) && keys.chat {
        toggle(current, OverlayKind::Chat)
    } else {
        current
    };
    let b = if keys.settings {
        toggle(a, OverlayKind::Settings)
    } else {
        a
    };
    if session is None && keys.login {
        toggle(b, OverlayKind::Login)
    } else {
        b
    }
}

fn toggle_overlay(current: Option<OverlayKind>, kind: OverlayKind) -> (r: Option<OverlayKind>)
    ensures
        r == toggle(current, kind),
{
    match current {
        Some(k) if k == kind => None,
        _ => Some(kind),
    }
}

/// Decides which overlay is shown after a frame in which `keys` were pressed.
pub fn next_overlay(current: Option<OverlayKind>, keys: OverlayKeys, session: Option<bool>) -> (r:
    Option<OverlayKind>)
    ensures
        r == overlay_after(current, keys, session),
{
    let mut o = current;
    if let Some(connected) = session {
        if connected && keys.chat {
            o = toggle_overlay(o, OverlayKind::Chat);
        }
    }
    if keys.settings {
        o = toggle_overlay(o, OverlayKind::Settings);
    }
    if session.is_none() && keys.login {
        o = toggle_overlay(o, OverlayKind::Login);
    }
    o
}

/// Pressing only the settings key twice brings back the overlay that was shown, unless
/// that overlay was one the first press replaced.
pub proof fn lemma_settings_toggle_twice(current: Option<OverlayKind>, session: Option<bool>)
    requires
        current is None || current == Some(OverlayKind::Settings),
    ensures
        ({
            let keys = OverlayKeys { chat: false, settings: true, login: false };
            overlay_after(overlay_after(current, keys, session), keys, session) == current
        }),
{
}

/// The login form: what the player typed so far.
#[derive(Debug, Clone)]
pub struct Login {
    pub username: String,
    pub password: String,
}

impl Login {
    /// An empty login form.
    pub fn new() -> (r: Self)
        ensures
            r.username@.len() == 0,
            r.password@.len() == 0,
    {
        Login { username: String::new(), password: String::new() }
    }
}

/// The up key asks for the difficulty before the selected one and the down key for the
/// one after it, both wrapping around: going down from what up asks for, or up from what
/// down asks for, lands on the selected difficulty again. The same holds of left and
/// right among the charts.
pub proof fn lemma_arrow_keys_are_inverse(list: ExpandableList)
    requires
        list.selected < list.buttons@.len(),
        list.sub_selected < list.buttons@[list.selected as int].1@.len(),
        list.buttons@.len() <= usize::MAX,
        list.buttons@[list.selected as int].1@.len() <= usize::MAX,
    ensures
        ({
            let n = list.buttons@.len() as int;
            let m = list.buttons@[list.selected as int].1@.len() as int;
            let sub = list.sub_selected as int;
            let sel = list.selected as int;
            let up = SelectKeys { right: false, left: false, down: false, up: true };
            let down = SelectKeys { right: false, left: false, down: true, up: false };
            let right = SelectKeys { right: true, left: false, down: false, up: false };
            let left = SelectKeys { right: false, left: true, down: false, up: false };
            &&& select_key_clicks(list, up).len() == 1
            &&& select_key_clicks(list, down).len() == 1
            &&& select_key_clicks(list, right).len() == 1
            &&& select_key_clicks(list, left).len() == 1
            &&& select_key_clicks(list, up)[0] matches MessageData::ExpandableList(
                ExpandableListMessage::ClickSub(u),
            ) && 0 <= u < m && (u + 1) % m == sub
            &&& select_key_clicks(list, down)[0] matches MessageData::ExpandableList(
                ExpandableListMessage::ClickSub(d),
            ) && 0 <= d < m && (d + m - 1) % m == sub
            &&& select_key_clicks(list, right)[0] matches MessageData::ExpandableList(
                ExpandableListMessage::Click(r),
            ) && 0 <= r < n && (r + n - 1) % n == sel
            &&& select_key_clicks(list, left)[0] matches MessageData::ExpandableList(
                ExpandableListMessage::Click(l),
            ) && 0 <= l < n && (l + 1) % n == sel
        }),
{
    let n = list.buttons@.len() as int;
    let m = list.buttons@[list.selected as int].1@.len() as int;
    let sub = list.sub_selected as int;
    let sel = list.selected as int;
    lemma_navigation_round_trip(sub, m);
    lemma_navigation_round_trip(sel, n);
    assert(0 <= (sub + m - 1) % m < m) by (nonlinear_arith)
        requires
            m > 0,
    ;
    assert(0 <= (sub + 1) % m < m) by (nonlinear_arith)
        requires
            m > 0,
    ;
    assert(0 <= (sel + n - 1) % n < n) by (nonlinear_arith)
        requires
            n > 0,
    ;
    assert(0 <= (sel + 1) % n < n) by (nonlinear_arith)
        requires
            n > 0,
    ;
}

/// With no session, the login key toggles the login form: it closes the form when it is
/// shown and opens it otherwise, so pressing it twice brings back what was shown when
/// that was nothing or the form.
pub proof fn lemma_login_toggle(current: Option<OverlayKind>)
    ensures
        ({
            let keys = OverlayKeys { chat: false, settings: false, login: true };
            &&& overlay_after(Some(OverlayKind::Login), keys, None) is None
            &&& current != Some(OverlayKind::Login) ==> overlay_after(current, keys, None)
                == Some(OverlayKind::Login)
            &&& (current is None || current == Some(OverlayKind::Login)) ==> overlay_after(
                overlay_after(current, keys, None),
                keys,
                None,
            ) == current
        }),
{
}

/// The chat key toggles the chat while the session is connected, and does nothing
/// otherwise.
pub proof fn lemma_chat_toggle(current: Option<OverlayKind>, session: Option<bool>)
    ensures
        ({
            let keys = OverlayKeys { chat: true, settings: false, login: false };
            &&& overlay_after(Some(OverlayKind::Chat), keys, Some(true)) is None
            &&& current != Some(OverlayKind::Chat) ==> overlay_after(current, keys, Some(true))
                == Some(OverlayKind::Chat)
            &&& session != Some(true) ==> overlay_after(current, keys, session) == current
        }),
{
}

} // verus!
