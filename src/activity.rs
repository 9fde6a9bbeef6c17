//! The presence payload: an `Activity` and the parts it may carry, built
//! fluently, checked where the peer imposes limits, and projected to JSON with
//! every unset field left out.
use crate::error::RichPresenceError;
use crate::json::{
    array_text, int_text, json_quoted, json_string, object_text, ArrayWriter, ObjectWriter,
    int_to_text,
};
use vstd::prelude::*;
use vstd::string::StrSliceExecFns;

verus! {

/// The longest label a button may have, in characters.
pub const MAX_LABEL_CHARS: usize = 32;

/// The longest url a button may have, in characters.
pub const MAX_URL_CHARS: usize = 512;

/// The most buttons an activity may carry.
pub const MAX_BUTTONS: usize = 2;

/// The content of a `Timestamps`: seconds since the epoch.
pub struct TimestampsModel {
    pub start: Option<i64>,
    pub end: Option<i64>,
}

/// The content of a `Party`: its id, and its current and maximum size.
pub struct PartyModel {
    pub id: Option<Seq<char>>,
    pub size: Option<(i32, i32)>,
}

/// The content of an `Assets`: image keys and their hover texts.
pub struct AssetsModel {
    pub large_image: Option<Seq<char>>,
    pub large_text: Option<Seq<char>>,
    pub small_image: Option<Seq<char>>,
    pub small_text: Option<Seq<char>>,
}

/// The content of a `Secrets`: the join, spectate and match tokens.
pub struct SecretsModel {
    pub join: Option<Seq<char>>,
    pub spectate: Option<Seq<char>>,
    pub match_secret: Option<Seq<char>>,
}

/// The content of a `Button`.
pub struct ButtonModel {
    pub label: Seq<char>,
    pub url: Seq<char>,
}

/// The content of an `Activity`; an empty button list means no buttons.
pub struct ActivityModel {
    pub state: Option<Seq<char>>,
    pub details: Option<Seq<char>>,
    pub timestamps: Option<TimestampsModel>,
    pub party: Option<PartyModel>,
    pub assets: Option<AssetsModel>,
    pub secrets: Option<SecretsModel>,
    pub buttons: Seq<ButtonModel>,
}

/// A label of 1 to 32 characters.
pub open spec fn valid_label(label: Seq<char>) -> bool {
    1 <= label.len() <= MAX_LABEL_CHARS
}

/// A url of 1 to 512 characters.
pub open spec fn valid_url(url: Seq<char>) -> bool {
    1 <= url.len() <= MAX_URL_CHARS
}

/// The activity with nothing set.
pub open spec fn empty_activity() -> ActivityModel {
    ActivityModel {
        state: None,
        details: None,
        timestamps: None,
        party: None,
        assets: None,
        secrets: None,
        buttons: Seq::empty(),
    }
}

// ---- JSON projection ----

/// The member `key` holding the JSON string of `v`, or no member when unset.
pub open spec fn text_member(key: Seq<char>, v: Option<Seq<char>>) -> Seq<(Seq<char>, Seq<char>)> {
    match v {
        Some(t) => seq![(key, json_quoted(t))],
        None => seq![],
    }
}

/// The member `key` holding the number `v`, or no member when unset.
pub open spec fn int_member(key: Seq<char>, v: Option<i64>) -> Seq<(Seq<char>, Seq<char>)> {
    match v {
        Some(n) => seq![(key, int_text(n as int))],
        None => seq![],
    }
}

/// The member `key` holding the JSON text `v`, or no member when unset.
pub open spec fn json_member(key: Seq<char>, v: Option<Seq<char>>) -> Seq<(Seq<char>, Seq<char>)> {
    match v {
        Some(t) => seq![(key, t)],
        None => seq![],
    }
}

/// The members of a `Timestamps` object.
pub open spec fn timestamps_members(t: TimestampsModel) -> Seq<(Seq<char>, Seq<char>)> {
    int_member("start"@, t.start) + int_member("end"@, t.end)
}

/// A party size as a two-number array: current, then maximum.
pub open spec fn size_text(size: (i32, i32)) -> Seq<char> {
    array_text(seq![int_text(size.0 as int), int_text(size.1 as int)])
}

/// The members of a `Party` object.
pub open spec fn party_members(p: PartyModel) -> Seq<(Seq<char>, Seq<char>)> {
    text_member("id"@, p.id) + json_member(
        "size"@,
        match p.size {
            Some(s) => Some(size_text(s)),
            None => None,
        },
    )
}

/// The members of an `Assets` object.
pub open spec fn assets_members(a: AssetsModel) -> Seq<(Seq<char>, Seq<char>)> {
    text_member("large_image"@, a.large_image) + text_member("large_text"@, a.large_text)
        + text_member("small_image"@, a.small_image) + text_member("small_text"@, a.small_text)
}

/// The members of a `Secrets` object.
pub open spec fn secrets_members(s: SecretsModel) -> Seq<(Seq<char>, Seq<char>)> {
    text_member("join"@, s.join) + text_member("spectate"@, s.spectate) + text_member(
        "match"@,
        s.match_secret,
    )
}

/// The JSON object of a button.
pub open spec fn button_text(b: ButtonModel) -> Seq<char> {
    object_text(seq![("label"@, json_quoted(b.label)), ("url"@, json_quoted(b.url))])
}

/// The `buttons` member, left out when there are no buttons.
pub open spec fn buttons_member(bs: Seq<ButtonModel>) -> Seq<(Seq<char>, Seq<char>)> {
    if bs.len() == 0 {
        seq![]
    } else {
        seq![("buttons"@, array_text(bs.map_values(|b: ButtonModel| button_text(b))))]
    }
}

/// The members of an activity's JSON object, in the order they are written.
pub open spec fn activity_members(a: ActivityModel) -> Seq<(Seq<char>, Seq<char>)> {
    text_member("details"@, a.details) + text_member("state"@, a.state) + json_member(
        "timestamps"@,
        match a.timestamps {
            Some(t) => Some(object_text(timestamps_members(t))),
            None => None,
        },
    ) + json_member(
        "party"@,
        match a.party {
            Some(p) => Some(object_text(party_members(p))),
            None => None,
        },
    ) + json_member(
        "assets"@,
        match a.assets {
            Some(x) => Some(object_text(assets_members(x))),
            None => None,
        },
    ) + json_member(
        "secrets"@,
        match a.secrets {
            Some(s) => Some(object_text(secrets_members(s))),
            None => None,
        },
    ) + buttons_member(a.buttons)
}

/// The JSON text of an activity.
pub open spec fn activity_text(a: ActivityModel) -> Seq<char> {
    object_text(activity_members(a))
}

// ---- types ----

/// A rich presence activity. Every setter returns the updated value, so calls chain.
#[derive(Clone, Debug)]
pub struct Activity {
    state: Option<String>,
    details: Option<String>,
    timestamps: Option<Timestamps>,
    party: Option<Party>,
    assets: Option<Assets>,
    secrets: Option<Secrets>,
    buttons: Option<Vec<Button>>,
}

/// The start and end of an activity.
#[derive(Clone, Debug)]
pub struct Timestamps {
    start: Option<i64>,
    end: Option<i64>,
}

/// The party an activity's user plays in.
#[derive(Clone, Debug)]
pub struct Party {
    id: Option<String>,
    size: Option<[i32; 2]>,
}

/// The art assets of an activity, with their hover texts.
#[derive(Clone, Debug)]
pub struct Assets {
    large_image: Option<String>,
    large_text: Option<String>,
    small_image: Option<String>,
    small_text: Option<String>,
}

/// The secrets of an activity.
#[derive(Clone, Debug)]
pub struct Secrets {
    join: Option<String>,
    spectate: Option<String>,
    match_secret: Option<String>,
}

/// A button shown under an activity: a label of 1 to 32 characters and a url
/// of 1 to 512 characters.
#[derive(Clone, Debug)]
pub struct Button {
    label: String,
    url: String,
}

/// The text of an optional string.
pub open spec fn opt_view(s: Option<String>) -> Option<Seq<char>> {
    match s {
        Some(t) => Some(t@),
        None => None,
    }
}

impl View for Timestamps {
    type V = TimestampsModel;

    closed spec fn view(&self) -> TimestampsModel {
        TimestampsModel { start: self.start, end: self.end }
    }
}

impl View for Party {
    type V = PartyModel;

    closed spec fn view(&self) -> PartyModel {
        PartyModel {
            id: opt_view(self.id),
            size: match self.size {
                Some(s) => Some((s@[0], s@[1])),
                None => None,
            },
        }
    }
}

impl View for Assets {
    type V = AssetsModel;

    closed spec fn view(&self) -> AssetsModel {
        AssetsModel {
            large_image: opt_view(self.large_image),
            large_text: opt_view(self.large_text),
            small_image: opt_view(self.small_image),
            small_text: opt_view(self.small_text),
        }
    }
}

impl View for Secrets {
    type V = SecretsModel;

    closed spec fn view(&self) -> SecretsModel {
        SecretsModel {
            join: opt_view(self.join),
            spectate: opt_view(self.spectate),
            match_secret: opt_view(self.match_secret),
        }
    }
}

impl View for Button {
    type V = ButtonModel;

    closed spec fn view(&self) -> ButtonModel {
        ButtonModel { label: self.label@, url: self.url@ }
    }
}

/// The contents of a list of buttons.
pub open spec fn buttons_view(bs: Seq<Button>) -> Seq<ButtonModel> {
    bs.map_values(|b: Button| b@)
}

impl View for Activity {
    type V = ActivityModel;

    closed spec fn view(&self) -> ActivityModel {
        ActivityModel {
            state: opt_view(self.state),
            details: opt_view(self.details),
            timestamps: match self.timestamps {
                Some(t) => Some(t@),
                None => None,
            },
            party: match self.party {
                Some(p) => Some(p@),
                None => None,
            },
            assets: match self.assets {
                Some(x) => Some(x@),
                None => None,
            },
            secrets: match self.secrets {
                Some(s) => Some(s@),
                None => None,
            },
            buttons: match self.buttons {
                Some(v) => buttons_view(v@),
                None => Seq::empty(),
            },
        }
    }
}

impl Button {
    /// Creates a button; fails unless the label has 1 to 32 characters and
    /// the url 1 to 512.
    pub fn new(label: &str, url: &str) -> (r: Result<Button, RichPresenceError>)
        ensures
            r is Ok <==> valid_label(label@) && valid_url(url@),
            r matches Ok(b) ==> b@ == (ButtonModel { label: label@, url: url@ }),
            r matches Err(e) ==> e == RichPresenceError::ButtonCreateInvalidValue,
    {
        let label_chars = label.unicode_len();
        let url_chars = url.unicode_len();
        if label_chars == 0 || label_chars > MAX_LABEL_CHARS || url_chars == 0 || url_chars
            > MAX_URL_CHARS {
            return Err(RichPresenceError::ButtonCreateInvalidValue);
        }
        Ok(Button { label: label.to_owned(), url: url.to_owned() })
    }

    /// The button's JSON object.
    pub fn to_json(&self) -> (r: String)
        ensures
            r@ == button_text(self@),
    {
        let mut w = ObjectWriter::new();
        let label = json_string(self.label.as_str());
        w.member("label", label.as_str());
        let url = json_string(self.url.as_str());
        w.member("url", url.as_str());
        assert(w.members() =~= seq![("label"@, json_quoted(self@.label)), ("url"@, json_quoted(self@.url))]);
        w.finish()
    }
}

impl Timestamps {
    /// Creates a `Timestamps` with neither end set.
    pub fn new() -> (r: Timestamps)
        ensures
            r@ == (TimestampsModel { start: None, end: None }),
    {
        Timestamps { start: None, end: None }
    }

    /// Sets the start time.
    pub fn start(self, start: i64) -> (r: Timestamps)
        ensures
            r@ == (TimestampsModel { start: Some(start), ..self@ }),
    {
        let mut t = self;
        t.start = Some(start);
        t
    }

    /// Sets the end time.
    pub fn end(self, end: i64) -> (r: Timestamps)
        ensures
            r@ == (TimestampsModel { end: Some(end), ..self@ }),
    {
        let mut t = self;
        t.end = Some(end);
        t
    }

    /// The JSON object of these timestamps; unset times are left out.
    pub fn to_json(&self) -> (r: String)
        ensures
            r@ == object_text(timestamps_members(self@)),
    {
        let mut w = ObjectWriter::new();
        if let Some(start) = self.start {
            let n = int_to_text(start);
            w.member("start", n.as_str());
        }
        assert(w.members() =~= int_member("start"@, self@.start));
        if let Some(end) = self.end {
            let n = int_to_text(end);
            w.member("end", n.as_str());
        }
        assert(w.members() =~= timestamps_members(self@));
        w.finish()
    }
}

impl Default for Timestamps {
    fn default() -> (r: Timestamps)
        ensures
            r@ == (TimestampsModel { start: None, end: None }),
    {
        Timestamps::new()
    }
}

impl Party {
    /// Creates a `Party` with nothing set.
    pub fn new() -> (r: Party)
        ensures
            r@ == (PartyModel { id: None, size: None }),
    {
        Party { id: None, size: None }
    }

    /// Sets the id of the party.
    pub fn id(self, id: &str) -> (r: Party)
        ensures
            r@ == (PartyModel { id: Some(id@), ..self@ }),
    {
        let mut p = self;
        p.id = Some(id.to_owned());
        p
    }

    /// Sets the size of the party: its current and its maximum size.
    pub fn size(self, size: [i32; 2]) -> (r: Party)
        ensures
            r@ == (PartyModel { size: Some((size@[0], size@[1])), ..self@ }),
    {
        let mut p = self;
        p.size = Some(size);
        p
    }

    /// The JSON object of this party; unset fields are left out.
    pub fn to_json(&self) -> (r: String)
        ensures
            r@ == object_text(party_members(self@)),
    {
        let mut w = ObjectWriter::new();
        if let Some(id) = &self.id {
            let q = json_string(id.as_str());
            w.member("id", q.as_str());
        }
        assert(w.members() =~= text_member("id"@, self@.id));
        if let Some(size) = &self.size {
            let mut a = ArrayWriter::new();
            let current = int_to_text(size[0] as i64);
            a.item(current.as_str());
            let max = int_to_text(size[1] as i64);
            a.item(max.as_str());
            assert(a.items() =~= seq![int_text(size@[0] as int), int_text(size@[1] as int)]);
            let sz = a.finish();
            w.member("size", sz.as_str());
        }
        assert(w.members() =~= party_members(self@));
        w.finish()
    }
}

impl Default for Party {
    fn default() -> (r: Party)
        ensures
            r@ == (PartyModel { id: None, size: None }),
    {
        Party::new()
    }
}

impl Assets {
    /// Creates an `Assets` with nothing set.
    pub fn new() -> (r: Assets)
        ensures
            r@ == (AssetsModel {
                large_image: None,
                large_text: None,
                small_image: None,
                small_text: None,
            }),
    {
        Assets { large_image: None, large_text: None, small_image: None, small_text: None }
    }

    /// Sets the key (or url) of the large image.
    pub fn large_image(self, large_image: &str) -> (r: Assets)
        ensures
            r@ == (AssetsModel { large_image: Some(large_image@), ..self@ }),
    {
        let mut a = self;
        a.large_image = Some(large_image.to_owned());
        a
    }

    /// Sets the text shown when hovering over the large image.
    pub fn large_text(self, large_text: &str) -> (r: Assets)
        ensures
            r@ == (AssetsModel { large_text: Some(large_text@), ..self@ }),
    {
        let mut a = self;
        a.large_text = Some(large_text.to_owned());
        a
    }

    /// Sets the key (or url) of the small image.
    pub fn small_image(self, small_image: &str) -> (r: Assets)
        ensures
            r@ == (AssetsModel { small_image: Some(small_image@), ..self@ }),
    {
        let mut a = self;
        a.small_image = Some(small_image.to_owned());
        a
    }

    /// Sets the text shown when hovering over the small image.
    pub fn small_text(self, small_text: &str) -> (r: Assets)
        ensures
            r@ == (AssetsModel { small_text: Some(small_text@), ..self@ }),
    {
        let mut a = self;
        a.small_text = Some(small_text.to_owned());
        a
    }

    /// The JSON object of these assets; unset fields are left out.
    pub fn to_json(&self) -> (r: String)
        ensures
            r@ == object_text(assets_members(self@)),
    {
        let mut w = ObjectWriter::new();
        if let Some(v) = &self.large_image {
            let q = json_string(v.as_str());
            w.member("large_image", q.as_str());
        }
        let ghost m1 = text_member("large_image"@, self@.large_image);
        assert(w.members() =~= m1);
        if let Some(v) = &self.large_text {
            let q = json_string(v.as_str());
            w.member("large_text", q.as_str());
        }
        let ghost m2 = m1 + text_member("large_text"@, self@.large_text);
        assert(w.members() =~= m2);
        if let Some(v) = &self.small_image {
            let q = json_string(v.as_str());
            w.member("small_image", q.as_str());
        }
        let ghost m3 = m2 + text_member("small_image"@, self@.small_image);
        assert(w.members() =~= m3);
        if let Some(v) = &self.small_text {
            let q = json_string(v.as_str());
            w.member("small_text", q.as_str());
        }
        assert(w.members() =~= assets_members(self@));
        w.finish()
    }
}

impl Default for Assets {
    fn default() -> (r: Assets)
        ensures
            r@ == (AssetsModel {
                large_image: None,
                large_text: None,
                small_image: None,
                small_text: None,
            }),
    {
        Assets::new()
    }
}

impl Secrets {
    /// Creates a `Secrets` with nothing set.
    pub fn new() -> (r: Secrets)
        ensures
            r@ == (SecretsModel { join: None, spectate: None, match_secret: None }),
    {
        Secrets { join: None, spectate: None, match_secret: None }
    }

    /// Sets the secret for joining a party.
    pub fn join(self, join: &str) -> (r: Secrets)
        ensures
            r@ == (SecretsModel { join: Some(join@), ..self@ }),
    {
        let mut s = self;
        s.join = Some(join.to_owned());
        s
    }

    /// Sets the secret for spectating a match.
    pub fn spectate(self, spectate: &str) -> (r: Secrets)
        ensures
            r@ == (SecretsModel { spectate: Some(spectate@), ..self@ }),
    {
        let mut s = self;
        s.spectate = Some(spectate.to_owned());
        s
    }

    /// Sets the secret for one instanced match; written as `match` in JSON.
    pub fn match_secret(self, match_secret: &str) -> (r: Secrets)
        ensures
            r@ == (SecretsModel { match_secret: Some(match_secret@), ..self@ }),
    {
        let mut s = self;
        s.match_secret = Some(match_secret.to_owned());
        s
    }

    /// The JSON object of these secrets; unset fields are left out.
    pub fn to_json(&self) -> (r: String)
        ensures
            r@ == object_text(secrets_members(self@)),
    {
        let mut w = ObjectWriter::new();
        if let Some(v) = &self.join {
            let q = json_string(v.as_str());
            w.member("join", q.as_str());
        }
        let ghost m1 = text_member("join"@, self@.join);
        assert(w.members() =~= m1);
        if let Some(v) = &self.spectate {
            let q = json_string(v.as_str());
            w.member("spectate", q.as_str());
        }
        let ghost m2 = m1 + text_member("spectate"@, self@.spectate);
        assert(w.members() =~= m2);
        if let Some(v) = &self.match_secret {
            let q = json_string(v.as_str());
            w.member("match", q.as_str());
        }
        assert(w.members() =~= secrets_members(self@));
        w.finish()
    }
}

impl Default for Secrets {
    fn default() -> (r: Secrets)
        ensures
            r@ == (SecretsModel { join: None, spectate: None, match_secret: None }),
    {
        Secrets::new()
    }
}

impl Activity {
    /// Creates an activity with nothing set.
    pub fn new() -> (r: Activity)
        ensures
            r@ == empty_activity(),
    {
        let r = Activity {
            state: None,
            details: None,
            timestamps: None,
            party: None,
            assets: None,
            secrets: None,
            buttons: None,
        };
        assert(r@ =~= empty_activity());
        r
    }

    /// Sets the state (the subtitle).
    pub fn state(self, state: &str) -> (r: Activity)
        ensures
            r@ == (ActivityModel { state: Some(state@), ..self@ }),
    {
        let mut a = self;
        a.state = Some(state.to_owned());
        a
    }

    /// Sets the details (the title).
    pub fn details(self, details: &str) -> (r: Activity)
        ensures
            r@ == (ActivityModel { details: Some(details@), ..self@ }),
    {
        let mut a = self;
        a.details = Some(details.to_owned());
        a
    }

    /// Sets the timestamps.
    pub fn timestamps(self, timestamps: Timestamps) -> (r: Activity)
        ensures
            r@ == (ActivityModel { timestamps: Some(timestamps@), ..self@ }),
    {
        let mut a = self;
        a.timestamps = Some(timestamps);
        a
    }

    /// Sets the party.
    pub fn party(self, party: Party) -> (r: Activity)
        ensures
            r@ == (ActivityModel { party: Some(party@), ..self@ }),
    {
        let mut a = self;
        a.party = Some(party);
        a
    }

    /// Sets the assets.
    pub fn assets(self, assets: Assets) -> (r: Activity)
        ensures
            r@ == (ActivityModel { assets: Some(assets@), ..self@ }),
    {
        let mut a = self;
        a.assets = Some(assets);
        a
    }

    /// Sets the secrets.
    pub fn secrets(self, secrets: Secrets) -> (r: Activity)
        ensures
            r@ == (ActivityModel { secrets: Some(secrets@), ..self@ }),
    {
        let mut a = self;
        a.secrets = Some(secrets);
        a
    }

    /// Attaches the buttons: none clears them, one or two are kept, and more
    /// than two are refused with their count.
    pub fn buttons(self, buttons: Vec<Button>) -> (r: Result<Activity, RichPresenceError>)
        ensures
            r is Ok <==> buttons@.len() <= MAX_BUTTONS,
            r matches Ok(a) ==> a@ == (ActivityModel { buttons: buttons_view(buttons@), ..self@ }),
            r matches Err(e) ==> e == RichPresenceError::TooManyButtons(buttons@.len() as usize),
    {
        let mut a = self;
        if buttons.len() == 0 {
            a.buttons = None;
            assert(buttons_view(buttons@) =~= Seq::<ButtonModel>::empty());
        } else if buttons.len() > MAX_BUTTONS {
            return Err(RichPresenceError::TooManyButtons(buttons.len()));
        } else {
            a.buttons = Some(buttons);
        }
        Ok(a)
    }

    /// The JSON object of this activity; unset fields, and an empty button
    /// list, are left out.
    pub fn to_json(&self) -> (r: String)
        ensures
            r@ == activity_text(self@),
    {
        let ghost a = self@;
        let mut w = ObjectWriter::new();
        add_text_member(&mut w, "details", &self.details);
        add_text_member(&mut w, "state", &self.state);
        let ghost m2 = w.members();
        let t = match &self.timestamps {
            Some(t) => Some(t.to_json()),
            None => None,
        };
        add_json_member(&mut w, "timestamps", &t);
        let p = match &self.party {
            Some(p) => Some(p.to_json()),
            None => None,
        };
        add_json_member(&mut w, "party", &p);
        let x = match &self.assets {
            Some(x) => Some(x.to_json()),
            None => None,
        };
        add_json_member(&mut w, "assets", &x);
        let ghost m5 = w.members();
        let x = match &self.secrets {
            Some(x) => Some(x.to_json()),
            None => None,
        };
        add_json_member(&mut w, "secrets", &x);
        let ghost m6 = w.members();
        if let Some(bs) = &self.buttons {
            if bs.len() > 0 {
                let j = buttons_to_json(bs);
                w.member("buttons", j.as_str());
            }
        }
        assert(w.members() =~= m6 + buttons_member(a.buttons));
        assert(activity_members(a) =~= m6 + buttons_member(a.buttons));
        w.finish()
    }
}

/// Adds the member `key` holding the JSON string of `v`, if `v` is set.
fn add_text_member(w: &mut ObjectWriter, key: &str, v: &Option<String>)
    requires
        old(w).wf(),
    ensures
        final(w).wf(),
        final(w).members() == old(w).members() + text_member(key@, opt_view(*v)),
{
    if let Some(t) = v {
        let q = json_string(t.as_str());
        w.member(key, q.as_str());
    }
    assert(final(w).members() =~= old(w).members() + text_member(key@, opt_view(*v)));
}

/// Adds the member `key` holding the JSON text `v`, if `v` is set.
fn add_json_member(w: &mut ObjectWriter, key: &str, v: &Option<String>)
    requires
        old(w).wf(),
    ensures
        final(w).wf(),
        final(w).members() == old(w).members() + json_member(key@, opt_view(*v)),
{
    if let Some(t) = v {
        w.member(key, t.as_str());
    }
    assert(final(w).members() =~= old(w).members() + json_member(key@, opt_view(*v)));
}

/// The JSON array of the buttons.
fn buttons_to_json(bs: &Vec<Button>) -> (r: String)
    ensures
        r@ == array_text(buttons_view(bs@).map_values(|b: ButtonModel| button_text(b))),
{
    let mut w = ArrayWriter::new();
    let mut i: usize = 0;
    while i < bs.len()
        invariant
            w.wf(),
            i <= bs@.len(),
            w.items() =~= Seq::new(i as nat, |j: int| button_text(bs@[j]@)),
        decreases bs@.len() - i,
    {
        let j = bs[i].to_json();
        w.item(j.as_str());
        i = i + 1;
    }
    assert(w.items() =~= buttons_view(bs@).map_values(|b: ButtonModel| button_text(b)));
    w.finish()
}

impl Default for Activity {
    fn default() -> (r: Activity)
        ensures
            r@ == empty_activity(),
    {
        Activity::new()
    }
}

// ---- laws ----

/// The names of an object's members, in order.
pub open spec fn member_keys(ms: Seq<(Seq<char>, Seq<char>)>) -> Seq<Seq<char>> {
    ms.map_values(|m: (Seq<char>, Seq<char>)| m.0)
}

/// `key` alone when `present`, else nothing.
pub open spec fn key_if(present: bool, key: Seq<char>) -> Seq<Seq<char>> {
    if present {
        seq![key]
    } else {
        seq![]
    }
}

/// The names of the fields of `a` that are set, in the order they are written;
/// the button list counts as set when it is not empty.
pub open spec fn present_keys(a: ActivityModel) -> Seq<Seq<char>> {
    key_if(a.details is Some, "details"@) + key_if(a.state is Some, "state"@) + key_if(
        a.timestamps is Some,
        "timestamps"@,
    ) + key_if(a.party is Some, "party"@) + key_if(a.assets is Some, "assets"@) + key_if(
        a.secrets is Some,
        "secrets"@,
    ) + key_if(a.buttons.len() > 0, "buttons"@)
}

proof fn lemma_keys_add(x: Seq<(Seq<char>, Seq<char>)>, y: Seq<(Seq<char>, Seq<char>)>)
    ensures
        member_keys(x + y) == member_keys(x) + member_keys(y),
{
    assert(member_keys(x + y) =~= member_keys(x) + member_keys(y));
}

proof fn lemma_text_member_keys(key: Seq<char>, v: Option<Seq<char>>)
    ensures
        member_keys(text_member(key, v)) == key_if(v is Some, key),
{
    assert(member_keys(text_member(key, v)) =~= key_if(v is Some, key));
}

proof fn lemma_json_member_keys(key: Seq<char>, v: Option<Seq<char>>)
    ensures
        member_keys(json_member(key, v)) == key_if(v is Some, key),
{
    assert(member_keys(json_member(key, v)) =~= key_if(v is Some, key));
}

/// The JSON object of an activity has a member for each field that is set
/// and for no other: an unset field, and an empty button list, never appear.
pub proof fn lemma_omission(a: ActivityModel)
    ensures
        member_keys(activity_members(a)) == present_keys(a),
{
    let t = match a.timestamps {
        Some(t) => Some(object_text(timestamps_members(t))),
        None => None,
    };
    let p = match a.party {
        Some(p) => Some(object_text(party_members(p))),
        None => None,
    };
    let x = match a.assets {
        Some(x) => Some(object_text(assets_members(x))),
        None => None,
    };
    let s = match a.secrets {
        Some(s) => Some(object_text(secrets_members(s))),
        None => None,
    };
    let m1 = text_member("details"@, a.details);
    let m2 = m1 + text_member("state"@, a.state);
    let m3 = m2 + json_member("timestamps"@, t);
    let m4 = m3 + json_member("party"@, p);
    let m5 = m4 + json_member("assets"@, x);
    let m6 = m5 + json_member("secrets"@, s);
    lemma_text_member_keys("details"@, a.details);
    lemma_text_member_keys("state"@, a.state);
    lemma_json_member_keys("timestamps"@, t);
    lemma_json_member_keys("party"@, p);
    lemma_json_member_keys("assets"@, x);
    lemma_json_member_keys("secrets"@, s);
    assert(member_keys(buttons_member(a.buttons)) =~= key_if(a.buttons.len() > 0, "buttons"@));
    lemma_keys_add(m1, text_member("state"@, a.state));
    lemma_keys_add(m2, json_member("timestamps"@, t));
    lemma_keys_add(m3, json_member("party"@, p));
    lemma_keys_add(m4, json_member("assets"@, x));
    lemma_keys_add(m5, json_member("secrets"@, s));
    lemma_keys_add(m6, buttons_member(a.buttons));
}

/// An activity with only its details set is written as a JSON object with
/// exactly one member, `details`.
pub proof fn lemma_only_details(d: Seq<char>)
    ensures
        activity_members(ActivityModel { details: Some(d), ..empty_activity() }) == seq![
            ("details"@, json_quoted(d)),
        ],
        activity_text(ActivityModel { details: Some(d), ..empty_activity() }) == object_text(
            seq![("details"@, json_quoted(d))],
        ),
{
    let a = ActivityModel { details: Some(d), ..empty_activity() };
    assert(buttons_member(a.buttons) =~= seq![]);
    assert(activity_members(a) =~= seq![("details"@, json_quoted(d))]);
}

} // verus!
