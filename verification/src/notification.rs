//! Notifications as the daemon receives them: their data and hints, how a
//! `Notify` call becomes them, and why one is closed.
use crate::text::str_eq;
use vstd::prelude::*;

verus! {

/// Identifier of a notification.
pub type NotificationId = u32;

/// Urgency level of a notification (`urgency` hint 0, 1 or 2).
#[derive(PartialEq, Eq, Structural, Debug, Clone, Copy)]
pub enum Urgency {
    Low,
    Normal,
    Critical,
}

impl Default for Urgency {
    fn default() -> (u: Self)
        ensures
            u == Urgency::Normal,
    {
        Urgency::Normal
    }
}

/// The urgency that an `urgency` hint byte names; any other byte counts as `Normal`.
pub open spec fn urgency_of_byte(b: u8) -> Urgency {
    if b == 0 {
        Urgency::Low
    } else if b == 2 {
        Urgency::Critical
    } else {
        Urgency::Normal
    }
}

impl Urgency {
    /// The urgency of an `urgency` hint byte.
    pub fn from_byte(b: u8) -> (u: Urgency)
        ensures
            u == urgency_of_byte(b),
    {
        if b == 0 {
            Urgency::Low
        } else if b == 1 {
            Urgency::Normal
        } else if b == 2 {
            Urgency::Critical
        } else {
            Urgency::Normal
        }
    }
}

/// Raw pixels of an `image-data` hint: width, height, bytes per row, whether there is
/// an alpha channel, bits per sample, channels, and the pixel bytes.
#[derive(Debug, Clone, PartialEq, Eq, Hash)]
pub struct ImageData {
    pub width: i32,
    pub height: i32,
    pub rowstride: i32,
    pub has_alpha: bool,
    pub bits_per_sample: i32,
    pub channels: i32,
    pub data: Vec<u8>,
}

/// Two images with the same dimensions, layout and pixels.
pub open spec fn same_pixels(a: ImageData, b: ImageData) -> bool {
    &&& a.width == b.width
    &&& a.height == b.height
    &&& a.rowstride == b.rowstride
    &&& a.has_alpha == b.has_alpha
    &&& a.bits_per_sample == b.bits_per_sample
    &&& a.channels == b.channels
    &&& a.data@ == b.data@
}

impl ImageData {
    /// A copy with the same dimensions, layout and pixels.
    pub fn copy(&self) -> (r: ImageData)
        ensures
            same_pixels(r, *self),
    {
        let mut data: Vec<u8> = Vec::new();
        let mut i: usize = 0;
        while i < self.data.len()
            invariant
                i <= self.data.len(),
                data@ == self.data@.take(i as int),
            decreases self.data.len() - i,
        {
            data.push(self.data[i]);
            i = i + 1;
            assert(data@ =~= self.data@.take(i as int));
        }
        assert(data@ =~= self.data@);
        ImageData {
            width: self.width,
            height: self.height,
            rowstride: self.rowstride,
            has_alpha: self.has_alpha,
            bits_per_sample: self.bits_per_sample,
            channels: self.channels,
            data,
        }
    }
}

/// The image of a notification: an icon name, a file, or pixels.
#[derive(Debug, Clone, PartialEq, Eq, Hash)]
pub enum Image {
    Name(String),
    File(String),
    Data(ImageData),
}

/// The value of a hint, as far as the daemon reads it: a boolean, a byte, a 32-bit
/// integer, a string, a structure (with the image it holds, if it is a valid one), or
/// anything else.
#[derive(Debug, Clone)]
pub enum HintValue {
    Bool(bool),
    Byte(u8),
    Int(i32),
    Str(String),
    Structure(Option<ImageData>),
    Other,
}

/// The hints of a notification that the daemon reads.
#[derive(Debug, Clone)]
pub struct NotificationHints {
    pub action_icons: bool,
    pub category: Option<String>,
    pub value: Option<i32>,
    pub desktop_entry: Option<String>,
    pub resident: bool,
    pub sound_file: Option<String>,
    pub sound_name: Option<String>,
    pub suppress_sound: bool,
    pub transient: bool,
    pub x: i32,
    pub y: Option<i32>,
    pub urgency: Urgency,
    pub image: Option<Image>,
}

/// Hints where none was given.
pub open spec fn hints_default() -> NotificationHints {
    NotificationHints {
        action_icons: false,
        category: None,
        value: None,
        desktop_entry: None,
        resident: false,
        sound_file: None,
        sound_name: None,
        suppress_sound: false,
        transient: false,
        x: 0,
        y: None,
        urgency: Urgency::Normal,
        image: None,
    }
}

impl Default for NotificationHints {
    fn default() -> (h: Self)
        ensures
            h == hints_default(),
    {
        NotificationHints {
            action_icons: false,
            category: None,
            value: None,
            desktop_entry: None,
            resident: false,
            sound_file: None,
            sound_name: None,
            suppress_sound: false,
            transient: false,
            x: 0,
            y: None,
            urgency: Urgency::Normal,
            image: None,
        }
    }
}

/// The text of a URL as the `url` crate parses and writes it back
/// (`Url::parse(s).map(|u| u.as_str())`), or `None` where it refuses `s`.
pub uninterp spec fn url_text(s: Seq<char>) -> Option<Seq<char>>;

/// Parses `s` as an absolute URL with `url::Url::parse` and gives back its
/// serialisation (`Url::as_str`). The contract claims only that the result is
/// `url_text(s)`: the same string always gives the same answer.
#[verifier::external_body]
fn parse_url(s: &str) -> (r: Option<String>)
    ensures
        (match r {
            Some(u) => Some(u@),
            None => None,
        }) == url_text(s@),
{
    match url::Url::parse(s) {
        Ok(u) => Some(u.as_str().to_string()),
        Err(_) => None,
    }
}

/// The image named by an `image-path` hint: the file that its URL names where `s`
/// parsed as a URL (`parsed` holds that URL's text), else an icon name.
pub fn image_from_path(s: &String, parsed: Option<String>) -> (i: Image)
    ensures
        parsed matches Some(u) ==> i == Image::File(u),
        parsed is None ==> i == Image::Name(*s),
{
    match parsed {
        Some(u) => Image::File(u),
        None => Image::Name(s.clone()),
    }
}

/// The image of an `image-path` hint with text `s`.
pub open spec fn path_image_ok(s: String, i: Image) -> bool {
    match url_text(s@) {
        Some(u) => i matches Image::File(f) && f@ == u,
        None => i == Image::Name(s),
    }
}

/// The keys that name an image path.
pub open spec fn is_image_path_key(k: Seq<char>) -> bool {
    k == "image-path"@ || k == "image_path"@
}

/// The keys that name image pixels.
pub open spec fn is_image_data_key(k: Seq<char>) -> bool {
    k == "image-data"@ || k == "image_data"@ || k == "icon_data"@
}

/// The hints after one more hint `(k, v)` is read, for every key but those of an image
/// (see `hint_step_ok`).
pub open spec fn hint_step(nh: NotificationHints, k: Seq<char>, v: HintValue) -> NotificationHints {
    if k == "action-icons"@ {
        NotificationHints { action_icons: v matches HintValue::Bool(b) && b, ..nh }
    } else if k == "category"@ {
        NotificationHints {
            category: match v {
                HintValue::Str(s) => Some(s),
                _ => None,
            },
            ..nh
        }
    } else if k == "value"@ {
        NotificationHints {
            value: match v {
                HintValue::Int(n) => Some(n),
                _ => None,
            },
            ..nh
        }
    } else if k == "desktop-entry"@ {
        NotificationHints {
            desktop_entry: match v {
                HintValue::Str(s) => Some(s),
                _ => None,
            },
            ..nh
        }
    } else if k == "resident"@ {
        NotificationHints { resident: v matches HintValue::Bool(b) && b, ..nh }
    } else if k == "sound-file"@ {
        NotificationHints {
            sound_file: match v {
                HintValue::Str(s) => Some(s),
                _ => None,
            },
            ..nh
        }
    } else if k == "sound-name"@ {
        NotificationHints {
            sound_name: match v {
                HintValue::Str(s) => Some(s),
                _ => None,
            },
            ..nh
        }
    } else if k == "suppress-sound"@ {
        NotificationHints { suppress_sound: v matches HintValue::Bool(b) && b, ..nh }
    } else if k == "transient"@ {
        NotificationHints { transient: v matches HintValue::Bool(b) && b, ..nh }
    } else if k == "x"@ {
        NotificationHints {
            x: match v {
                HintValue::Int(n) => n,
                _ => 0,
            },
            ..nh
        }
    } else if k == "y"@ {
        NotificationHints {
            y: match v {
                HintValue::Int(n) => Some(n),
                _ => None,
            },
            ..nh
        }
    } else if k == "urgency"@ {
        NotificationHints {
            urgency: match v {
                HintValue::Byte(b) => urgency_of_byte(b),
                _ => Urgency::Normal,
            },
            ..nh
        }
    } else {
        nh
    }
}

/// `next` is `nh` after reading the hint `(k, v)`.
pub open spec fn hint_step_ok(nh: NotificationHints, k: Seq<char>, v: HintValue, next: NotificationHints) -> bool {
    if is_image_path_key(k) {
        match v {
            HintValue::Str(s) => next.image matches Some(i) && path_image_ok(s, i) && next
                == NotificationHints { image: next.image, ..nh },
            _ => next == nh,
        }
    } else if is_image_data_key(k) {
        match v {
            HintValue::Structure(Some(img)) => next.image matches Some(Image::Data(d))
                && same_pixels(d, img) && next == NotificationHints { image: next.image, ..nh },
            _ => next == nh,
        }
    } else {
        next == hint_step(nh, k, v)
    }
}

/// `out` is what reading the hints `hs` in order makes of the defaults.
pub open spec fn hints_read(hs: Seq<(String, HintValue)>, out: NotificationHints) -> bool
    decreases hs.len(),
{
    if hs.len() == 0 {
        out == hints_default()
    } else {
        exists|before: NotificationHints|
            hints_read(hs.drop_last(), before) && #[trigger] hint_step_ok(
                before,
                hs.last().0@,
                hs.last().1,
                out,
            )
    }
}

impl NotificationHints {
    /// Reads the hints of a `Notify` call, in the order given; a later hint overrides an
    /// earlier one with the same effect, unknown keys are ignored, and a value of the
    /// wrong type leaves the default (or, for an image, the image as it was).
    pub fn new(hints: &Vec<(String, HintValue)>) -> (nh: NotificationHints)
        ensures
            hints_read(hints@, nh),
    {
        let mut nh = NotificationHints::default();
        let mut i: usize = 0;
        assert(hints@.take(0) =~= Seq::<(String, HintValue)>::empty());
        while i < hints.len()
            invariant
                i <= hints.len(),
                hints_read(hints@.take(i as int), nh),
            decreases hints.len() - i,
        {
            let ghost before = nh;
            let k = &hints[i].0;
            let v = &hints[i].1;
            nh = Self::step(nh, k, v);
            assert(hints@.take(i + 1).drop_last() =~= hints@.take(i as int));
            assert(hint_step_ok(before, hints@.take(i + 1).last().0@, hints@.take(i + 1).last().1, nh));
            i = i + 1;
        }
        assert(hints@.take(hints.len() as int) =~= hints@);
        nh
    }

    /// Reads one hint.
    fn step(nh: NotificationHints, k: &String, v: &HintValue) -> (out: NotificationHints)
        ensures
            hint_step_ok(nh, k@, *v, out),
    {
        let key = k.as_str();
        if str_eq(key, "image-path") || str_eq(key, "image_path") {
            return match v {
                HintValue::Str(s) => {
                    let parsed = parse_url(s.as_str());
                    let img = image_from_path(s, parsed);
                    NotificationHints { image: Some(img), ..nh }
                },
                _ => nh,
            };
        }
        if str_eq(key, "image-data") || str_eq(key, "image_data") || str_eq(key, "icon_data") {
            return match v {
                HintValue::Structure(Some(img)) => NotificationHints {
                    image: Some(Image::Data(img.copy())),
                    ..nh
                },
                _ => nh,
            };
        }
        if str_eq(key, "action-icons") {
            NotificationHints { action_icons: bool_of(v), ..nh }
        } else if str_eq(key, "category") {
            NotificationHints { category: string_of_value(v), ..nh }
        } else if str_eq(key, "value") {
            NotificationHints { value: int_of(v), ..nh }
        } else if str_eq(key, "desktop-entry") {
            NotificationHints { desktop_entry: string_of_value(v), ..nh }
        } else if str_eq(key, "resident") {
            NotificationHints { resident: bool_of(v), ..nh }
        } else if str_eq(key, "sound-file") {
            NotificationHints { sound_file: string_of_value(v), ..nh }
        } else if str_eq(key, "sound-name") {
            NotificationHints { sound_name: string_of_value(v), ..nh }
        } else if str_eq(key, "suppress-sound") {
            NotificationHints { suppress_sound: bool_of(v), ..nh }
        } else if str_eq(key, "transient") {
            NotificationHints { transient: bool_of(v), ..nh }
        } else if str_eq(key, "x") {
            let x = match int_of(v) {
                Some(n) => n,
                None => 0,
            };
            NotificationHints { x, ..nh }
        } else if str_eq(key, "y") {
            NotificationHints { y: int_of(v), ..nh }
        } else if str_eq(key, "urgency") {
            let urgency = match v {
                HintValue::Byte(b) => Urgency::from_byte(*b),
                _ => Urgency::Normal,
            };
            NotificationHints { urgency, ..nh }
        } else {
            nh
        }
    }
}

fn bool_of(v: &HintValue) -> (b: bool)
    ensures
        b == (*v matches HintValue::Bool(x) && x),
{
    match v {
        HintValue::Bool(x) => *x,
        _ => false,
    }
}

fn int_of(v: &HintValue) -> (n: Option<i32>)
    ensures
        n == (match *v {
            HintValue::Int(x) => Some(x),
            _ => None,
        }),
{
    match v {
        HintValue::Int(x) => Some(*x),
        _ => None,
    }
}

fn string_of_value(v: &HintValue) -> (s: Option<String>)
    ensures
        s == (match *v {
            HintValue::Str(x) => Some(x),
            _ => None,
        }),
{
    match v {
        HintValue::Str(x) => Some(x.clone()),
        _ => None,
    }
}


/// A notification as a client sent it: its identifier, the sending application and its
/// icon, summary and body, the timeout it asked for (milliseconds; `-1` for the
/// default, `0` for none), its actions as (key, label) pairs, and its hints.
#[derive(Debug, Clone)]
pub struct NotificationData {
    pub id: NotificationId,
    pub app_name: String,
    pub app_icon: Option<String>,
    pub summary: String,
    pub body: String,
    pub timeout: i32,
    pub actions: Vec<(String, String)>,
    pub hints: NotificationHints,
}

impl Default for NotificationData {
    fn default() -> (d: Self)
        ensures
            d.id == 0,
            d.app_name@.len() == 0,
            d.app_icon is None,
            d.summary@.len() == 0,
            d.body@.len() == 0,
            d.timeout == 0,
            d.actions@.len() == 0,
            d.hints == hints_default(),
    {
        NotificationData {
            id: 0,
            app_name: String::new(),
            app_icon: None,
            summary: String::new(),
            body: String::new(),
            timeout: 0,
            actions: Vec::new(),
            hints: NotificationHints::default(),
        }
    }
}

/// Consecutive pairs of a flat action list (`key, label, key, label, ...`); an odd
/// last element is dropped.
pub open spec fn action_pairs(flat: Seq<String>) -> Seq<(String, String)> {
    Seq::new(flat.len() / 2, |k: int| (flat[2 * k], flat[2 * k + 1]))
}

impl NotificationData {
    /// The notification that a `Notify` call describes, under identifier `id`.
    pub fn from_notify(
        id: NotificationId,
        app_name: &str,
        app_icon: &str,
        summary: &str,
        body: &str,
        actions: &Vec<String>,
        hints: NotificationHints,
        expire_timeout: i32,
    ) -> (d: NotificationData)
        ensures
            d.id == id,
            d.app_name@ == app_name@,
            app_icon@.len() == 0 ==> d.app_icon is None,
            app_icon@.len() > 0 ==> (d.app_icon matches Some(i) && i@ == app_icon@),
            d.summary@ == summary@,
            d.body@ == body@,
            d.timeout == expire_timeout,
            d.actions@ == action_pairs(actions@),
            d.hints == hints,
    {
        let icon = if app_icon.is_empty() {
            None
        } else {
            Some(app_icon.to_owned())
        };
        let mut pairs: Vec<(String, String)> = Vec::new();
        let mut k: usize = 0;
        while k < actions.len() / 2
            invariant
                k <= actions.len() / 2,
                pairs@ == action_pairs(actions@).take(k as int),
            decreases actions.len() / 2 - k,
        {
            let key = actions[2 * k].clone();
            let label = actions[2 * k + 1].clone();
            pairs.push((key, label));
            k = k + 1;
            assert(pairs@ =~= action_pairs(actions@).take(k as int));
        }
        assert(pairs@ =~= action_pairs(actions@));
        NotificationData {
            id,
            app_name: app_name.to_owned(),
            app_icon: icon,
            summary: summary.to_owned(),
            body: body.to_owned(),
            timeout: expire_timeout,
            actions: pairs,
            hints,
        }
    }
}

/// Hands out identifiers to `Notify` calls that replace no notification.
#[derive(Debug)]
pub struct NotificationIds {
    next_id: u32,
}

impl View for NotificationIds {
    type V = u32;

    closed spec fn view(&self) -> u32 {
        self.next_id
    }
}

/// The identifier handed out after `id`: the next one, or 1 after the largest.
pub open spec fn id_after(id: u32) -> u32 {
    if id == u32::MAX {
        1
    } else {
        (id + 1) as u32
    }
}

impl NotificationIds {
    /// The next fresh identifier is never 0.
    #[verifier::type_invariant]
    spec fn never_zero(self) -> bool {
        self.next_id != 0
    }

    /// Identifiers start at 1.
    pub fn new() -> (ids: NotificationIds)
        ensures
            ids@ == 1,
    {
        NotificationIds { next_id: 1 }
    }

    /// The identifier of a `Notify` call: `replaces_id` where it is not 0, else the next
    /// fresh identifier; never 0.
    pub fn assign(&mut self, replaces_id: u32) -> (id: NotificationId)
        ensures
            replaces_id != 0 ==> id == replaces_id && final(self)@ == old(self)@,
            replaces_id == 0 ==> id == old(self)@ && final(self)@ == id_after(old(self)@),
            id != 0,
    {
        proof {
            use_type_invariant(&*self);
        }
        if replaces_id == 0 {
            let id = self.next_id;
            self.next_id = match self.next_id.checked_add(1) {
                Some(n) => n,
                None => 1,
            };
            id
        } else {
            replaces_id
        }
    }
}

/// Why a notification was closed (`NotificationClosed` reason code 1 to 4).
#[derive(PartialEq, Eq, Structural, Debug, Clone, Copy)]
pub enum Reason {
    Expired,
    DismissedByUser,
    CloseNotificationCall,
    Unkown,
}

/// The reason code of the `NotificationClosed` signal.
pub open spec fn reason_code(r: Reason) -> u32 {
    match r {
        Reason::Expired => 1,
        Reason::DismissedByUser => 2,
        Reason::CloseNotificationCall => 3,
        Reason::Unkown => 4,
    }
}

/// The name of a reason as the daemon writes it.
pub open spec fn reason_name(r: Reason) -> Seq<char> {
    match r {
        Reason::Expired => "Expired"@,
        Reason::DismissedByUser => "DismissedByUser"@,
        Reason::CloseNotificationCall => "CloseNotificationCall"@,
        Reason::Unkown => "Unknown"@,
    }
}

impl Reason {
    /// The reason code.
    pub fn code(&self) -> (c: u32)
        ensures
            c == reason_code(*self),
    {
        match self {
            Reason::Expired => 1,
            Reason::DismissedByUser => 2,
            Reason::CloseNotificationCall => 3,
            Reason::Unkown => 4,
        }
    }

    /// The name of the reason.
    pub fn to_string(&self) -> (s: String)
        ensures
            s@ == reason_name(*self),
    {
        match self {
            Reason::Expired => "Expired".to_string(),
            Reason::DismissedByUser => "DismissedByUser".to_string(),
            Reason::CloseNotificationCall => "CloseNotificationCall".to_string(),
            Reason::Unkown => "Unknown".to_string(),
        }
    }
}

/// Whether the daemon shows past notifications instead of the current ones.
#[derive(PartialEq, Eq, Structural, Debug, Clone, Copy)]
pub enum History {
    Hidden,
    Shown,
}

impl Default for History {
    fn default() -> (h: Self)
        ensures
            h == History::Hidden,
    {
        History::Hidden
    }
}


/// The identifier of a stored row: its row identifier cut to 32 bits.
pub open spec fn row_id(rowid: i64) -> NotificationId {
    rowid as u32
}

/// The identifier of a stored row (see `row_id`).
pub fn id_of_row(rowid: i64) -> (id: NotificationId)
    ensures
        id == row_id(rowid),
{
    #[verifier::truncate]
    (rowid as u32)
}

} // verus!
