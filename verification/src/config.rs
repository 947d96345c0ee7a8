//! Settings of the daemon that decide behaviour: the queue discipline, the layer and
//! anchor of the surface, style selectors, and how long notifications stay.
use crate::notification::Urgency;
use crate::text::{starts_with, str_eq, strip_prefix};
use vstd::prelude::*;

verus! {

/// How expiry timers run: for every notification at once, or only for the first.
#[derive(PartialEq, Eq, Structural, Debug, Clone, Copy)]
pub enum Queue {
    Unordered,
    Ordered,
}

impl Default for Queue {
    fn default() -> (q: Self)
        ensures
            q == Queue::Unordered,
    {
        Queue::Unordered
    }
}

/// Layer of the surface in the compositor's stacking order.
#[derive(PartialEq, Eq, Structural, Debug, Clone, Copy)]
pub enum Layer {
    Background,
    Bottom,
    Top,
    Overlay,
}

impl Default for Layer {
    fn default() -> (l: Self)
        ensures
            l == Layer::Overlay,
    {
        Layer::Overlay
    }
}

/// Edge or corner of the output that the surface is anchored to.
#[derive(PartialEq, Eq, Structural, Debug, Clone, Copy)]
pub enum Anchor {
    TopRight,
    TopCenter,
    TopLeft,
    BottomRight,
    BottomCenter,
    BottomLeft,
    CenterRight,
    CenterLeft,
    Center,
}

impl Default for Anchor {
    fn default() -> (a: Self)
        ensures
            a == Anchor::TopRight,
    {
        Anchor::TopRight
    }
}

/// State of an element that a style applies to.
#[derive(PartialEq, Eq, Structural, Debug, Clone, Copy)]
pub enum State {
    Default,
    Hover,
    ContainerHover,
}

impl Default for State {
    fn default() -> (s: Self)
        ensures
            s == State::Default,
    {
        State::Default
    }
}

/// What a style applies to.
#[derive(Debug, Clone, PartialEq)]
pub enum Selector {
    All,
    PrevCounter,
    NextCounter,
    AllNotifications,
    Notification(String),
    ActionButton,
    DismissButton,
    Progress,
    Icon,
    Hints,
}


/// The selector named by a style's `selector` string, if it names one: a fixed word,
/// or `notification:` followed by an application name.
pub open spec fn selector_spec(s: Seq<char>) -> Option<Selector> {
    if s == "*"@ {
        Some(Selector::All)
    } else if s == "prev_counter"@ {
        Some(Selector::PrevCounter)
    } else if s == "next_counter"@ {
        Some(Selector::NextCounter)
    } else if s == "notification"@ {
        Some(Selector::AllNotifications)
    } else if s == "action"@ {
        Some(Selector::ActionButton)
    } else if s == "dismiss"@ {
        Some(Selector::DismissButton)
    } else if s == "progress"@ {
        Some(Selector::Progress)
    } else if s == "icon"@ {
        Some(Selector::Icon)
    } else if s == "hints"@ {
        Some(Selector::Hints)
    } else {
        None
    }
}

/// Rank of a style in the order in which styles are applied: later ranks override.
pub open spec fn priority_spec(selector: Selector, state: State) -> u8 {
    match selector {
        Selector::All => 1,
        Selector::AllNotifications => match state {
            State::Default => 2,
            State::Hover => 3,
            State::ContainerHover => 5,
        },
        Selector::Notification(_) => match state {
            State::Default => 6,
            State::Hover => 7,
            State::ContainerHover => 9,
        },
        Selector::ActionButton => match state {
            State::Default => 10,
            State::Hover => 11,
            State::ContainerHover => 13,
        },
        Selector::DismissButton => match state {
            State::Default => 14,
            State::Hover => 15,
            State::ContainerHover => 17,
        },
        Selector::Icon => 18,
        Selector::Progress => 19,
        Selector::PrevCounter => 20,
        Selector::NextCounter => 21,
        Selector::Hints => 22,
    }
}

/// Whether `s` names a selector: a fixed word, or `notification:` and an application.
pub open spec fn selector_known(s: Seq<char>) -> bool {
    selector_spec(s) is Some || starts_with(s, "notification:"@)
}

/// `r` is what reading the selector string `s` gives (see `Selector::parse`).
pub open spec fn selector_reads(s: Seq<char>, r: Option<Selector>) -> bool {
    &&& selector_spec(s) matches Some(sel) ==> r == Some(sel)
    &&& selector_spec(s) is None && starts_with(s, "notification:"@) ==> (r matches Some(
        Selector::Notification(app),
    ) && app@ == s.skip("notification:"@.len() as int))
    &&& !selector_known(s) ==> r is None
}

impl Selector {
    /// Reads a selector; `None` for a string that names none (an unknown variant).
    pub fn parse(s: &str) -> (r: Option<Selector>)
        ensures
            selector_reads(s@, r),
    {
        if str_eq(s, "*") {
            Some(Selector::All)
        } else if str_eq(s, "prev_counter") {
            Some(Selector::PrevCounter)
        } else if str_eq(s, "next_counter") {
            Some(Selector::NextCounter)
        } else if str_eq(s, "notification") {
            Some(Selector::AllNotifications)
        } else if str_eq(s, "action") {
            Some(Selector::ActionButton)
        } else if str_eq(s, "dismiss") {
            Some(Selector::DismissButton)
        } else if str_eq(s, "progress") {
            Some(Selector::Progress)
        } else if str_eq(s, "icon") {
            Some(Selector::Icon)
        } else if str_eq(s, "hints") {
            Some(Selector::Hints)
        } else {
            match strip_prefix(s, "notification:") {
                Some(app) => Some(Selector::Notification(app)),
                None => None,
            }
        }
    }

    /// The selectors of a style, written as one string or as a list of them; `None`
    /// where one of them names no selector.
    pub fn parse_list(items: &Vec<String>) -> (r: Option<Vec<Selector>>)
        ensures
            r is Some <==> forall|i: int| 0 <= i < items.len() ==> selector_known(#[trigger] items@[i]@),
            r matches Some(v) ==> v.len() == items.len() && forall|i: int|
                0 <= i < items.len() ==> selector_reads(#[trigger] items@[i]@, Some(v@[i])),
    {
        let mut v: Vec<Selector> = Vec::new();
        let mut i: usize = 0;
        while i < items.len()
            invariant
                i <= items.len(),
                v.len() == i,
                forall|k: int| 0 <= k < i ==> selector_known(#[trigger] items@[k]@),
                forall|k: int| 0 <= k < i ==> selector_reads(#[trigger] items@[k]@, Some(v@[k])),
            decreases items.len() - i,
        {
            match Selector::parse(items[i].as_str()) {
                Some(sel) => {
                    v.push(sel);
                },
                None => {
                    return None;
                },
            }
            i = i + 1;
        }
        Some(v)
    }

    /// The rank of a style with this selector and state.
    pub fn priority(&self, state: State) -> (p: u8)
        ensures
            p == priority_spec(*self, state),
    {
        match self {
            Selector::All => 1,
            Selector::AllNotifications => match state {
                State::Default => 2,
                State::Hover => 3,
                State::ContainerHover => 5,
            },
            Selector::Notification(_) => match state {
                State::Default => 6,
                State::Hover => 7,
                State::ContainerHover => 9,
            },
            Selector::ActionButton => match state {
                State::Default => 10,
                State::Hover => 11,
                State::ContainerHover => 13,
            },
            Selector::DismissButton => match state {
                State::Default => 14,
                State::Hover => 15,
                State::ContainerHover => 17,
            },
            Selector::Icon => 18,
            Selector::Progress => 19,
            Selector::PrevCounter => 20,
            Selector::NextCounter => 21,
            Selector::Hints => 22,
        }
    }
}

// ----- expiry -------------------------------------------------------------------------
/// Seconds a notification stays, per urgency; zero or less means that it stays.
#[derive(Debug, Clone, Copy, PartialEq)]
pub struct Timeout {
    urgency_low: i32,
    urgency_normal: i32,
    urgency_critical: i32,
}

impl Timeout {
    /// The number of seconds for an urgency.
    pub closed spec fn seconds(self, urgency: Urgency) -> i32 {
        match urgency {
            Urgency::Low => self.urgency_low,
            Urgency::Normal => self.urgency_normal,
            Urgency::Critical => self.urgency_critical,
        }
    }

    /// The same number of seconds for every urgency (a timeout written as one number).
    pub fn uniform(value: i32) -> (t: Timeout)
        ensures
            t.seconds(Urgency::Low) == value,
            t.seconds(Urgency::Normal) == value,
            t.seconds(Urgency::Critical) == value,
    {
        Timeout { urgency_low: value, urgency_normal: value, urgency_critical: value }
    }

    /// A timeout written as a map of `urgency_low`, `urgency_normal` and
    /// `urgency_critical`; a level that is left out gets zero, a key given twice keeps
    /// its last value, and any other key is refused: `Err` holds it.
    pub fn from_map(entries: &Vec<(String, i32)>) -> (r: Result<Timeout, String>)
        ensures
            timeout_map_spec(entries@) matches Ok((l, n, c)) ==> (r matches Ok(t) && t.seconds(
                Urgency::Low,
            ) == l && t.seconds(Urgency::Normal) == n && t.seconds(Urgency::Critical) == c),
            timeout_map_spec(entries@) matches Err(k) ==> (r matches Err(e) && e@ == k),
    {
        let mut low: i32 = 0;
        let mut normal: i32 = 0;
        let mut critical: i32 = 0;
        let mut i: usize = 0;
        while i < entries.len()
            invariant
                i <= entries.len(),
                timeout_map_spec(entries@.take(i as int)) == Ok::<(i32, i32, i32), Seq<char>>(
                    (low, normal, critical),
                ),
            decreases entries.len() - i,
        {
            let ghost prefix = entries@.take(i as int);
            assert(entries@.take(i + 1).drop_last() =~= prefix);
            let key = &entries[i].0;
            let value = entries[i].1;
            if str_eq(key.as_str(), "urgency_low") {
                low = value;
            } else if str_eq(key.as_str(), "urgency_normal") {
                normal = value;
            } else if str_eq(key.as_str(), "urgency_critical") {
                critical = value;
            } else {
                proof {
                    lemma_timeout_map_err(entries@, (i + 1) as int);
                }
                return Err(key.clone());
            }
            i = i + 1;
        }
        assert(entries@.take(entries.len() as int) =~= entries@);
        Ok(Timeout { urgency_low: low, urgency_normal: normal, urgency_critical: critical })
    }

    /// The seconds for an urgency.
    pub fn get(&self, urgency: &Urgency) -> (s: i32)
        ensures
            s == self.seconds(*urgency),
    {
        match urgency {
            Urgency::Low => self.urgency_low,
            Urgency::Normal => self.urgency_normal,
            Urgency::Critical => self.urgency_critical,
        }
    }
}

impl Default for Timeout {
    fn default() -> (t: Self)
        ensures
            t.seconds(Urgency::Low) == 5,
            t.seconds(Urgency::Normal) == 10,
            t.seconds(Urgency::Critical) == 0,
    {
        Timeout { urgency_low: 5, urgency_normal: 10, urgency_critical: 0 }
    }
}

/// The levels that a map of keys and seconds sets, read in order; or the first key
/// that names no level.
pub open spec fn timeout_map_spec(entries: Seq<(String, i32)>) -> Result<(i32, i32, i32), Seq<char>>
    decreases entries.len(),
{
    if entries.len() == 0 {
        Ok((0, 0, 0))
    } else {
        match timeout_map_spec(entries.drop_last()) {
            Err(k) => Err(k),
            Ok((l, n, c)) => {
                let (key, v) = entries.last();
                if key@ == "urgency_low"@ {
                    Ok((v, n, c))
                } else if key@ == "urgency_normal"@ {
                    Ok((l, v, c))
                } else if key@ == "urgency_critical"@ {
                    Ok((l, n, v))
                } else {
                    Err(key@)
                }
            },
        }
    }
}

/// Once a prefix of the entries is refused, every longer prefix is refused with the
/// same key.
pub proof fn lemma_timeout_map_err(entries: Seq<(String, i32)>, i: int)
    requires
        0 <= i <= entries.len(),
        timeout_map_spec(entries.take(i)) is Err,
    ensures
        timeout_map_spec(entries) == timeout_map_spec(entries.take(i)),
    decreases entries.len() - i,
{
    if i < entries.len() {
        assert(entries.take(i + 1).drop_last() =~= entries.take(i));
        lemma_timeout_map_err(entries, i + 1);
    } else {
        assert(entries.take(i) =~= entries);
    }
}

/// Expiry settings for the notifications of one application.
#[derive(Debug, Clone)]
pub struct AppTimeout {
    pub app: String,
    pub default_timeout: Option<Timeout>,
    pub ignore_timeout: Option<bool>,
}

/// Expiry settings: the defaults and the settings per application.
#[derive(Debug, Clone)]
pub struct TimeoutPolicy {
    pub default_timeout: Timeout,
    pub ignore_timeout: bool,
    pub apps: Vec<AppTimeout>,
}

/// Index of the first application entry named `app`, from `j` on; the length if none.
pub open spec fn app_index_from(apps: Seq<AppTimeout>, app: Seq<char>, j: int) -> int
    decreases apps.len() - j,
{
    if j < 0 || j >= apps.len() {
        apps.len() as int
    } else if apps[j].app@ == app {
        j
    } else {
        app_index_from(apps, app, j + 1)
    }
}

/// Milliseconds of a default timeout, or `None` where it is zero or less.
pub open spec fn default_ms(t: Timeout, urgency: Urgency) -> Option<u64> {
    if t.seconds(urgency) > 0 {
        Some((t.seconds(urgency) * 1000) as u64)
    } else {
        None
    }
}

/// How long a notification of `app` with this urgency stays, in milliseconds, when its
/// sender asked for `requested` (`-1`: the default, `0`: forever, more: milliseconds);
/// `None` where it stays until dismissed. An entry for the application overrides the
/// general settings.
pub open spec fn timeout_spec(p: TimeoutPolicy, app: Seq<char>, urgency: Urgency, requested: i32) -> Option<u64> {
    let k = app_index_from(p.apps@, app, 0);
    let found = k < p.apps@.len();
    let ignore = if found && p.apps@[k].ignore_timeout is Some {
        p.apps@[k].ignore_timeout->0
    } else {
        p.ignore_timeout
    };
    let default = if found && p.apps@[k].default_timeout is Some {
        p.apps@[k].default_timeout->0
    } else {
        p.default_timeout
    };
    if ignore {
        default_ms(default, urgency)
    } else if requested == -1 {
        default_ms(default, urgency)
    } else if requested > 0 {
        Some(requested as u64)
    } else {
        None
    }
}

/// Where no entry from `j` up to `k` is for `app` and entry `k` is, the search from `j`
/// finds `k`.
proof fn lemma_app_index_at(apps: Seq<AppTimeout>, app: Seq<char>, j: int, k: int)
    requires
        0 <= j <= k < apps.len(),
        forall|i: int| j <= i < k ==> (#[trigger] apps[i]).app@ != app,
        apps[k].app@ == app,
    ensures
        app_index_from(apps, app, j) == k,
    decreases k - j,
{
    if j < k {
        lemma_app_index_at(apps, app, j + 1, k);
    }
}

/// Where no entry from `j` on is for `app`, the search finds none.
proof fn lemma_app_index_none(apps: Seq<AppTimeout>, app: Seq<char>, j: int)
    requires
        0 <= j,
        forall|i: int| j <= i < apps.len() ==> (#[trigger] apps[i]).app@ != app,
    ensures
        app_index_from(apps, app, j) == apps.len(),
    decreases apps.len() - j,
{
    if j < apps.len() {
        lemma_app_index_none(apps, app, j + 1);
    }
}

/// How long a notification stays:
/// - where the first entry for its application sets a default timeout `t`, a sender
///   asking for the default (`-1`) gets `t`'s seconds for the urgency, in
///   milliseconds (none where they are 0 or less), whether timeouts are ignored or not;
/// - where that entry also says to ignore senders, every request gets the same;
/// - with no entry for the application, a sender asking for the default gets the
///   general default's seconds, in milliseconds, and where senders are not ignored a
///   positive request is kept as it is and 0 means it stays.
pub proof fn law_timeout_choice(p: TimeoutPolicy, app: Seq<char>, urgency: Urgency, requested: i32, k: int)
    ensures
        ({
            let secs = |t: Timeout| t.seconds(urgency);
            let ms = |t: Timeout| if secs(t) > 0 {
                Some((secs(t) * 1000) as u64)
            } else {
                None::<u64>
            };
            &&& (0 <= k < p.apps@.len() && p.apps@[k].app@ == app && (forall|i: int|
                0 <= i < k ==> (#[trigger] p.apps@[i]).app@ != app)
                && p.apps@[k].default_timeout is Some) ==> {
                let t = p.apps@[k].default_timeout->0;
                &&& timeout_spec(p, app, urgency, -1i32) == ms(t)
                &&& p.apps@[k].ignore_timeout == Some(true) ==> timeout_spec(p, app, urgency, requested)
                    == ms(t)
            }
            &&& (forall|i: int| 0 <= i < p.apps@.len() ==> (#[trigger] p.apps@[i]).app@ != app) ==> {
                &&& timeout_spec(p, app, urgency, -1i32) == ms(p.default_timeout)
                &&& !p.ignore_timeout && requested > 0 ==> timeout_spec(p, app, urgency, requested)
                    == Some(requested as u64)
                &&& !p.ignore_timeout && requested == 0 ==> timeout_spec(p, app, urgency, requested)
                    is None
            }
        }),
{
    if 0 <= k < p.apps@.len() && p.apps@[k].app@ == app && (forall|i: int|
        0 <= i < k ==> (#[trigger] p.apps@[i]).app@ != app) {
        lemma_app_index_at(p.apps@, app, 0, k);
    }
    if forall|i: int| 0 <= i < p.apps@.len() ==> (#[trigger] p.apps@[i]).app@ != app {
        lemma_app_index_none(p.apps@, app, 0);
    }
}

proof fn lemma_app_index_range(apps: Seq<AppTimeout>, app: Seq<char>, j: int)
    requires
        0 <= j,
    ensures
        j <= app_index_from(apps, app, j) <= apps.len() || (j > apps.len()
            && app_index_from(apps, app, j) == apps.len()),
    decreases apps.len() - j,
{
    if j < apps.len() && apps[j].app@ != app {
        lemma_app_index_range(apps, app, j + 1);
    }
}

impl TimeoutPolicy {
    /// The general defaults (`Timeout::default()`, timeouts of senders honoured) and no
    /// entry for any application.
    pub fn new() -> (p: TimeoutPolicy)
        ensures
            p.default_timeout.seconds(Urgency::Low) == 5,
            p.default_timeout.seconds(Urgency::Normal) == 10,
            p.default_timeout.seconds(Urgency::Critical) == 0,
            !p.ignore_timeout,
            p.apps@.len() == 0,
    {
        TimeoutPolicy { default_timeout: Timeout::default(), ignore_timeout: false, apps: Vec::new() }
    }

    /// Index of the first entry for `app`, or the number of entries.
    fn app_index(&self, app: &String) -> (k: usize)
        ensures
            k == app_index_from(self.apps@, app@, 0),
    {
        let mut j: usize = 0;
        while j < self.apps.len()
            invariant
                j <= self.apps.len(),
                app_index_from(self.apps@, app@, 0) == app_index_from(self.apps@, app@, j as int),
            decreases self.apps.len() - j,
        {
            if str_eq(self.apps[j].app.as_str(), app.as_str()) {
                return j;
            }
            j = j + 1;
        }
        j
    }

    /// How long a notification stays (see `timeout_spec`).
    pub fn timeout(&self, app: &String, urgency: Urgency, requested: i32) -> (t: Option<u64>)
        ensures
            t == timeout_spec(*self, app@, urgency, requested),
    {
        let k = self.app_index(app);
        let mut ignore = self.ignore_timeout;
        let mut default = self.default_timeout;
        if k < self.apps.len() {
            match self.apps[k].ignore_timeout {
                Some(b) => {
                    ignore = b;
                },
                None => {},
            }
            match self.apps[k].default_timeout {
                Some(t) => {
                    default = t;
                },
                None => {},
            }
        }
        let seconds = default.get(&urgency);
        if ignore || requested == -1 {
            if seconds > 0 {
                Some((seconds as u64) * 1000)
            } else {
                None
            }
        } else if requested > 0 {
            Some(requested as u64)
        } else {
            None
        }
    }
}


/// The pieces of the configuration file's path, to be joined in order:
/// `$XDG_CONFIG_HOME/moxnotify/config.lua`, else `$HOME/.config/moxnotify/config.lua`;
/// `None` where neither variable is set.
pub fn config_path(xdg_config_home: Option<String>, home: Option<String>) -> (p: Option<Vec<String>>)
    ensures
        xdg_config_home matches Some(x) ==> p matches Some(v) && v@.map_values(|s: String| s@)
            == seq![x@, "moxnotify/config.lua"@],
        xdg_config_home is None ==> (home matches Some(h) ==> p matches Some(v) && v@.map_values(
            |s: String| s@,
        ) == seq![h@, ".config"@, "moxnotify/config.lua"@]),
        xdg_config_home is None && home is None ==> p is None,
{
    match xdg_config_home {
        Some(x) => {
            let v = vec![x, "moxnotify/config.lua".to_owned()];
            assert(v@.map_values(|s: String| s@) =~= seq![v@[0]@, v@[1]@]);
            Some(v)
        },
        None => match home {
            Some(h) => {
                let v = vec![h, ".config".to_owned(), "moxnotify/config.lua".to_owned()];
                assert(v@.map_values(|s: String| s@) =~= seq![v@[0]@, v@[1]@, v@[2]@]);
                Some(v)
            },
            None => None,
        },
    }
}

// ----- applying styles --------------------------------------------------------------------
/// A part of the style settings that a configured style changes: the style of
/// notifications (unhovered or hovered), of the counters above and below, of progress
/// bars, icons, action and dismiss buttons (each in notifications unhovered or hovered);
/// `..Hovered` for buttons means their hover look; the hint labels of buttons, in
/// notifications unhovered or hovered.
#[derive(PartialEq, Eq, Structural, Debug, Clone, Copy)]
pub enum StyleTarget {
    Default,
    Hover,
    Prev,
    Next,
    DefaultProgress,
    HoverProgress,
    DefaultIcon,
    HoverIcon,
    DefaultAction,
    HoverAction,
    DefaultActionHovered,
    HoverActionHovered,
    DefaultDismiss,
    HoverDismiss,
    DefaultDismissHovered,
    HoverDismissHovered,
    DefaultHint,
    HoverHint,
}

/// The parts that a style with this selector and state changes, in order.
pub open spec fn targets_spec(selector: Selector, state: State) -> Seq<StyleTarget> {
    match selector {
        Selector::All => seq![
            StyleTarget::Default,
            StyleTarget::Hover,
            StyleTarget::Prev,
            StyleTarget::Next,
            StyleTarget::DefaultProgress,
            StyleTarget::HoverProgress,
            StyleTarget::DefaultIcon,
            StyleTarget::HoverIcon,
            StyleTarget::DefaultAction,
            StyleTarget::HoverAction,
            StyleTarget::DefaultDismiss,
            StyleTarget::HoverDismiss,
        ],
        Selector::NextCounter => seq![StyleTarget::Next],
        Selector::PrevCounter => seq![StyleTarget::Prev],
        Selector::Progress => if state == State::ContainerHover {
            seq![StyleTarget::HoverProgress]
        } else {
            seq![StyleTarget::DefaultProgress, StyleTarget::HoverProgress]
        },
        Selector::Icon => seq![StyleTarget::DefaultIcon, StyleTarget::HoverIcon],
        Selector::Hints => seq![StyleTarget::DefaultHint, StyleTarget::HoverHint],
        Selector::AllNotifications => if state == State::Default {
            seq![StyleTarget::Default, StyleTarget::Hover]
        } else {
            seq![StyleTarget::Hover]
        },
        Selector::Notification(_) => Seq::empty(),
        Selector::ActionButton => match state {
            State::Default => seq![StyleTarget::DefaultAction, StyleTarget::HoverAction],
            State::Hover => seq![StyleTarget::DefaultActionHovered, StyleTarget::HoverActionHovered],
            State::ContainerHover => seq![StyleTarget::HoverAction],
        },
        Selector::DismissButton => match state {
            State::Default => seq![StyleTarget::DefaultDismiss, StyleTarget::HoverDismiss],
            State::Hover => seq![StyleTarget::DefaultDismissHovered, StyleTarget::HoverDismissHovered],
            State::ContainerHover => seq![StyleTarget::HoverDismiss],
        },
    }
}

impl Selector {
    /// The parts that a style with this selector and state changes, in order.
    pub fn targets(&self, state: State) -> (t: Vec<StyleTarget>)
        ensures
            t@ == targets_spec(*self, state),
    {
        let t = match self {
            Selector::All => vec![
                StyleTarget::Default,
                StyleTarget::Hover,
                StyleTarget::Prev,
                StyleTarget::Next,
                StyleTarget::DefaultProgress,
                StyleTarget::HoverProgress,
                StyleTarget::DefaultIcon,
                StyleTarget::HoverIcon,
                StyleTarget::DefaultAction,
                StyleTarget::HoverAction,
                StyleTarget::DefaultDismiss,
                StyleTarget::HoverDismiss,
            ],
            Selector::NextCounter => vec![StyleTarget::Next],
            Selector::PrevCounter => vec![StyleTarget::Prev],
            Selector::Progress => if state == State::ContainerHover {
                vec![StyleTarget::HoverProgress]
            } else {
                vec![StyleTarget::DefaultProgress, StyleTarget::HoverProgress]
            },
            Selector::Icon => vec![StyleTarget::DefaultIcon, StyleTarget::HoverIcon],
            Selector::Hints => vec![StyleTarget::DefaultHint, StyleTarget::HoverHint],
            Selector::AllNotifications => if state == State::Default {
                vec![StyleTarget::Default, StyleTarget::Hover]
            } else {
                vec![StyleTarget::Hover]
            },
            Selector::Notification(_) => Vec::new(),
            Selector::ActionButton => match state {
                State::Default => vec![StyleTarget::DefaultAction, StyleTarget::HoverAction],
                State::Hover => vec![
                    StyleTarget::DefaultActionHovered,
                    StyleTarget::HoverActionHovered,
                ],
                State::ContainerHover => vec![StyleTarget::HoverAction],
            },
            Selector::DismissButton => match state {
                State::Default => vec![StyleTarget::DefaultDismiss, StyleTarget::HoverDismiss],
                State::Hover => vec![
                    StyleTarget::DefaultDismissHovered,
                    StyleTarget::HoverDismissHovered,
                ],
                State::ContainerHover => vec![StyleTarget::HoverDismiss],
            },
        };
        assert(t@ =~= targets_spec(*self, state));
        t
    }
}

/// The indices `i < j` with priority `v`, in order.
pub open spec fn indices_at(p: Seq<u8>, v: int, j: int) -> Seq<int>
    decreases j,
{
    if j <= 0 {
        Seq::empty()
    } else if p[j - 1] == v {
        indices_at(p, v, j - 1).push(j - 1)
    } else {
        indices_at(p, v, j - 1)
    }
}

/// The indices with a priority below `level`, grouped by priority in ascending order,
/// each group in index order: the order of a stable sort by priority.
pub open spec fn stable_order(p: Seq<u8>, level: int) -> Seq<int>
    decreases level,
{
    if level <= 0 {
        Seq::empty()
    } else {
        stable_order(p, level - 1) + indices_at(p, level - 1, p.len() as int)
    }
}

/// The order in which styles with these priorities are applied: by priority, ascending,
/// and in the order written where priorities are equal (a stable sort).
pub fn priority_order(priorities: &Vec<u8>) -> (order: Vec<usize>)
    ensures
        order@.map_values(|i: usize| i as int) == stable_order(priorities@, 256),
{
    let mut order: Vec<usize> = Vec::new();
    let mut level: u32 = 0;
    while level < 256
        invariant
            level <= 256,
            order@.map_values(|i: usize| i as int) == stable_order(priorities@, level as int),
        decreases 256 - level,
    {
        let ghost before = order@.map_values(|i: usize| i as int);
        let mut i: usize = 0;
        while i < priorities.len()
            invariant
                level < 256,
                i <= priorities.len(),
                order@.map_values(|i: usize| i as int) == before + indices_at(
                    priorities@,
                    level as int,
                    i as int,
                ),
            decreases priorities.len() - i,
        {
            let ghost old_order = order@;
            if priorities[i] as u32 == level {
                order.push(i);
                assert(order@.map_values(|k: usize| k as int) =~= old_order.map_values(
                    |k: usize| k as int,
                ).push(i as int));
                assert(indices_at(priorities@, level as int, i + 1) == indices_at(
                    priorities@,
                    level as int,
                    i as int,
                ).push(i as int));
            } else {
                assert(indices_at(priorities@, level as int, i + 1) == indices_at(
                    priorities@,
                    level as int,
                    i as int,
                ));
            }
            assert(order@.map_values(|k: usize| k as int) =~= before + indices_at(
                priorities@,
                level as int,
                i + 1,
            ));
            i = i + 1;
        }
        level = level + 1;
    }
    order
}

} // verus!
