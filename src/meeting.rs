//! Meeting classification from probe outputs, and the meeting detector's
//! idle / in-meeting state machine.

use vstd::prelude::*;
use crate::events::Events;
use crate::text::{
    chars_of, contains, find_first, is_first_occurrence, seq_contains, seq_starts_with, starts_with,
    sub_vec,
};

verus! {

/// A meeting application that can be attributed to a detected meeting.
#[derive(Debug, Clone)]
pub enum MeetingApp {
    Zoom,
    SlackHuddle,
    GoogleMeet,
    MicrosoftTeams,
    Discord,
    Unknown(String),
}

/// The mathematical value of a [`MeetingApp`].
pub enum MeetingAppView {
    Zoom,
    SlackHuddle,
    GoogleMeet,
    MicrosoftTeams,
    Discord,
    Unknown(Seq<char>),
}

impl View for MeetingApp {
    type V = MeetingAppView;

    open spec fn view(&self) -> MeetingAppView {
        match self {
            MeetingApp::Zoom => MeetingAppView::Zoom,
            MeetingApp::SlackHuddle => MeetingAppView::SlackHuddle,
            MeetingApp::GoogleMeet => MeetingAppView::GoogleMeet,
            MeetingApp::MicrosoftTeams => MeetingAppView::MicrosoftTeams,
            MeetingApp::Discord => MeetingAppView::Discord,
            MeetingApp::Unknown(name) => MeetingAppView::Unknown(name@),
        }
    }
}

/// The view of an optional app.
pub open spec fn app_view(a: Option<MeetingApp>) -> Option<MeetingAppView> {
    match a {
        Some(x) => Some(x@),
        None => None,
    }
}

impl MeetingApp {
    /// A copy of this value.
    pub fn duplicate(&self) -> (r: MeetingApp)
        ensures
            r == *self,
    {
        match self {
            MeetingApp::Zoom => MeetingApp::Zoom,
            MeetingApp::SlackHuddle => MeetingApp::SlackHuddle,
            MeetingApp::GoogleMeet => MeetingApp::GoogleMeet,
            MeetingApp::MicrosoftTeams => MeetingApp::MicrosoftTeams,
            MeetingApp::Discord => MeetingApp::Discord,
            MeetingApp::Unknown(name) => MeetingApp::Unknown(name.clone()),
        }
    }
}

// ---------------------------------------------------------------------------
// URL rules
// ---------------------------------------------------------------------------

pub open spec fn meet_domain() -> Seq<char> {
    "meet.google.com/"@
}

/// A character that separates two tab URLs in a browser's tab list: any
/// character with the Unicode White_Space property.
pub open spec fn is_url_separator(c: char) -> bool {
    ('\t' <= c && c <= '\r') || c == ' ' || c == '\u{85}' || c == '\u{A0}' || c == '\u{1680}'
        || ('\u{2000}' <= c && c <= '\u{200A}') || c == '\u{2028}' || c == '\u{2029}' || c
        == '\u{202F}' || c == '\u{205F}' || c == '\u{3000}'
}

/// The end of the URL that starts at `i`: the next separator, or the end.
pub open spec fn url_end(s: Seq<char>, i: int) -> int
    decreases s.len() - i,
{
    if i >= s.len() {
        s.len() as int
    } else if is_url_separator(s[i]) {
        i
    } else {
        url_end(s, i + 1)
    }
}

/// The URLs of a tab list from position `i` on: the maximal runs of
/// characters that are not separators, in order.
pub open spec fn urls_from(s: Seq<char>, i: int) -> Seq<Seq<char>>
    decreases s.len() - i,
{
    if i < 0 || i >= s.len() {
        seq![]
    } else if is_url_separator(s[i]) {
        urls_from(s, i + 1)
    } else {
        let e = url_end(s, i);
        if i < e <= s.len() {
            seq![s.subrange(i, e)] + urls_from(s, e)
        } else {
            seq![]
        }
    }
}

/// The URLs of a tab list.
pub open spec fn tab_urls(s: Seq<char>) -> Seq<Seq<char>> {
    urls_from(s, 0)
}

/// A character that ends the first path segment.
pub open spec fn ends_segment(c: char) -> bool {
    c == '/' || c == '?' || c == '#'
}

/// The first path segment of `p` holds a dash.
pub open spec fn first_segment_has_dash(p: Seq<char>) -> bool {
    exists|k: int|
        0 <= k < p.len() && #[trigger] p[k] == '-' && forall|j: int|
            0 <= j < k ==> !ends_segment(#[trigger] p[j])
}

/// What follows the Meet domain names a room: it is not empty, not the
/// landing, internal or query page, and it is a room code (its first segment
/// holds a dash) or a lookup link.
pub open spec fn is_room_path(p: Seq<char>) -> bool {
    &&& p.len() > 0
    &&& !seq_starts_with(p, "landing"@)
    &&& !seq_starts_with(p, "_meet"@)
    &&& !seq_starts_with(p, "?"@)
    &&& (first_segment_has_dash(p) || seq_starts_with(p, "lookup/"@))
}

/// One URL is a Google Meet room: what follows its first Meet domain is a
/// room path.
pub open spec fn url_is_meet_room(u: Seq<char>) -> bool {
    exists|i: int|
        #[trigger] is_first_occurrence(u, meet_domain(), i) && is_room_path(
            u.subrange(i + meet_domain().len(), u.len() as int),
        )
}

/// The Google Meet rule: some tab URL is a Meet room.
pub open spec fn meet_room_rule(urls: Seq<char>) -> bool {
    exists|k: int| 0 <= k < tab_urls(urls).len() && url_is_meet_room(#[trigger] tab_urls(urls)[k])
}

pub open spec fn zoom_rule(urls: Seq<char>) -> bool {
    seq_contains(urls, "zoom.us/j/"@) || seq_contains(urls, "zoom.us/wc/"@)
}

pub open spec fn teams_rule(urls: Seq<char>) -> bool {
    seq_contains(urls, "teams.microsoft.com/l/meetup-join"@) || seq_contains(
        urls,
        "teams.live.com"@,
    )
}

/// One URL is a Slack huddle: the Slack web app with a huddle in it.
pub open spec fn url_is_huddle(u: Seq<char>) -> bool {
    seq_contains(u, "app.slack.com"@) && seq_contains(u, "huddle"@)
}

/// The Slack Huddle rule: some tab URL is a huddle.
pub open spec fn slack_huddle_rule(urls: Seq<char>) -> bool {
    exists|k: int| 0 <= k < tab_urls(urls).len() && url_is_huddle(#[trigger] tab_urls(urls)[k])
}

/// The meeting that a browser's tab URLs show, by the fixed precedence
/// Google Meet, Zoom, Teams, Slack Huddle.
pub open spec fn classify_urls(urls: Seq<char>) -> Option<MeetingAppView> {
    if meet_room_rule(urls) {
        Some(MeetingAppView::GoogleMeet)
    } else if zoom_rule(urls) {
        Some(MeetingAppView::Zoom)
    } else if teams_rule(urls) {
        Some(MeetingAppView::MicrosoftTeams)
    } else if slack_huddle_rule(urls) {
        Some(MeetingAppView::SlackHuddle)
    } else {
        None
    }
}

/// Whether `s` contains `p`.
pub fn text_contains(s: &str, p: &str) -> (r: bool)
    ensures
        r == seq_contains(s@, p@),
{
    let v = chars_of(s);
    contains(&v, p)
}

/// The views of a list of character vectors.
pub open spec fn char_views(v: Seq<Vec<char>>) -> Seq<Seq<char>> {
    v.map_values(|x: Vec<char>| x@)
}

fn is_url_separator_exec(c: char) -> (r: bool)
    ensures
        r == is_url_separator(c),
{
    ('\t' <= c && c <= '\r') || c == ' ' || c == '\u{85}' || c == '\u{A0}' || c == '\u{1680}'
        || ('\u{2000}' <= c && c <= '\u{200A}') || c == '\u{2028}' || c == '\u{2029}' || c
        == '\u{202F}' || c == '\u{205F}' || c == '\u{3000}'
}

fn url_end_exec(s: &Vec<char>, start: usize) -> (r: usize)
    requires
        start < s.len(),
        !is_url_separator(s@[start as int]),
    ensures
        r == url_end(s@, start as int),
        start < r <= s.len(),
{
    let mut i: usize = start;
    while i < s.len() && !is_url_separator_exec(s[i])
        invariant
            start <= i <= s.len(),
            url_end(s@, i as int) == url_end(s@, start as int),
        decreases s.len() - i,
    {
        i = i + 1;
    }
    i
}

/// The URLs of the tab list `s`.
pub fn split_urls(s: &Vec<char>) -> (r: Vec<Vec<char>>)
    ensures
        char_views(r@) == tab_urls(s@),
{
    let mut r: Vec<Vec<char>> = Vec::new();
    let mut i: usize = 0;
    while i < s.len()
        invariant
            i <= s.len(),
            char_views(r@) + urls_from(s@, i as int) == tab_urls(s@),
        decreases s.len() - i,
    {
        if is_url_separator_exec(s[i]) {
            i = i + 1;
        } else {
            let e = url_end_exec(s, i);
            let u = sub_vec(s, i, e);
            let ghost before = char_views(r@);
            r.push(u);
            proof {
                assert(char_views(r@) =~= before.push(s@.subrange(i as int, e as int)));
                assert(char_views(r@) + urls_from(s@, e as int) =~= before + urls_from(
                    s@,
                    i as int,
                ));
            }
            i = e;
        }
    }
    proof {
        assert(char_views(r@) + urls_from(s@, i as int) =~= char_views(r@));
    }
    r
}

fn first_segment_has_dash_exec(p: &Vec<char>) -> (r: bool)
    ensures
        r == first_segment_has_dash(p@),
{
    let mut k: usize = 0;
    while k < p.len()
        invariant
            k <= p.len(),
            forall|j: int| 0 <= j < k ==> !ends_segment(#[trigger] p@[j]) && p@[j] != '-',
        decreases p.len() - k,
    {
        let c = p[k];
        if c == '/' || c == '?' || c == '#' {
            proof {
                if first_segment_has_dash(p@) {
                    let k2 = choose|k2: int|
                        0 <= k2 < p@.len() && #[trigger] p@[k2] == '-' && forall|j: int|
                            0 <= j < k2 ==> !ends_segment(#[trigger] p@[j]);
                    if k2 > k {
                        assert(!ends_segment(p@[k as int]));
                    }
                }
            }
            return false;
        }
        if c == '-' {
            proof {
                assert(p@[k as int] == '-');
            }
            return true;
        }
        k = k + 1;
    }
    false
}

fn is_room_path_exec(p: &Vec<char>) -> (r: bool)
    ensures
        r == is_room_path(p@),
{
    if p.len() == 0 {
        return false;
    }
    if starts_with(p, "landing") || starts_with(p, "_meet") || starts_with(p, "?") {
        return false;
    }
    first_segment_has_dash_exec(p) || starts_with(p, "lookup/")
}

fn url_is_meet_room_exec(u: &Vec<char>) -> (r: bool)
    ensures
        r == url_is_meet_room(u@),
{
    let domain = chars_of("meet.google.com/");
    match find_first(u, &domain) {
        None => {
            proof {
                assert forall|i: int| !#[trigger] is_first_occurrence(u@, meet_domain(), i) by {
                    if is_first_occurrence(u@, meet_domain(), i) {
                        assert(crate::text::occurs_at(u@, meet_domain(), i));
                    }
                }
            }
            false
        },
        Some(i) => {
            proof {
                assert(crate::text::occurs_at(u@, domain@, i as int));
            }
            assert(i + domain.len() <= u.len());
            let after = sub_vec(u, i + domain.len(), u.len());
            let r = is_room_path_exec(&after);
            proof {
                assert(is_first_occurrence(u@, meet_domain(), i as int));
                assert forall|k: int| #[trigger]
                    is_first_occurrence(u@, meet_domain(), k) implies k == i by {}
            }
            r
        },
    }
}

/// The Google Meet rule: some tab URL shows a Meet room rather than the
/// landing, internal or bare home page.
pub fn is_google_meet_room(urls: &str) -> (r: bool)
    ensures
        r == meet_room_rule(urls@),
{
    let s = chars_of(urls);
    let tabs = split_urls(&s);
    let mut k: usize = 0;
    while k < tabs.len()
        invariant
            k <= tabs.len(),
            char_views(tabs@) == tab_urls(urls@),
            forall|j: int| 0 <= j < k ==> !url_is_meet_room(#[trigger] tab_urls(urls@)[j]),
        decreases tabs.len() - k,
    {
        let found = url_is_meet_room_exec(&tabs[k]);
        proof {
            assert(tab_urls(urls@)[k as int] == tabs@[k as int]@);
        }
        if found {
            return true;
        }
        k = k + 1;
    }
    false
}

/// The Zoom rule: a join or web-client meeting link.
pub fn is_zoom_meeting_url(urls: &str) -> (r: bool)
    ensures
        r == zoom_rule(urls@),
{
    text_contains(urls, "zoom.us/j/") || text_contains(urls, "zoom.us/wc/")
}

/// The Teams rule: a meetup-join link, or the consumer Teams domain.
pub fn is_teams_meeting_url(urls: &str) -> (r: bool)
    ensures
        r == teams_rule(urls@),
{
    text_contains(urls, "teams.microsoft.com/l/meetup-join") || text_contains(
        urls,
        "teams.live.com",
    )
}

/// The Slack Huddle rule: some tab URL is the Slack web app with a huddle
/// open.
pub fn is_slack_huddle_url(urls: &str) -> (r: bool)
    ensures
        r == slack_huddle_rule(urls@),
{
    let s = chars_of(urls);
    let tabs = split_urls(&s);
    let mut k: usize = 0;
    while k < tabs.len()
        invariant
            k <= tabs.len(),
            char_views(tabs@) == tab_urls(urls@),
            forall|j: int| 0 <= j < k ==> !url_is_huddle(#[trigger] tab_urls(urls@)[j]),
        decreases tabs.len() - k,
    {
        let found = contains(&tabs[k], "app.slack.com") && contains(
            &tabs[k],
            "huddle",
        );
        proof {
            assert(tab_urls(urls@)[k as int] == tabs@[k as int]@);
        }
        if found {
            return true;
        }
        k = k + 1;
    }
    false
}

/// The meeting shown by one browser's space-joined tab URLs.
pub fn detect_meeting_from_urls(urls: &str) -> (r: Option<MeetingApp>)
    ensures
        app_view(r) == classify_urls(urls@),
{
    if is_google_meet_room(urls) {
        Some(MeetingApp::GoogleMeet)
    } else if is_zoom_meeting_url(urls) {
        Some(MeetingApp::Zoom)
    } else if is_teams_meeting_url(urls) {
        Some(MeetingApp::MicrosoftTeams)
    } else if is_slack_huddle_url(urls) {
        Some(MeetingApp::SlackHuddle)
    } else {
        None
    }
}

// ---------------------------------------------------------------------------
// Probe outputs and the classifier
// ---------------------------------------------------------------------------

/// The raw outputs of every probe for one polling tick. `None` means that the
/// probe itself failed; such a probe contributes no signal.
pub struct ProbeSnapshot {
    /// The process listing.
    pub process_list: Option<String>,
    /// Whether Zoom shows more than one window (the scripting output).
    pub zoom_window: Option<String>,
    /// The titles of Slack's windows.
    pub slack_titles: Option<String>,
    /// Whether Teams shows more than one window (the scripting output).
    pub teams_window: Option<String>,
    /// The titles of Discord's windows.
    pub discord_titles: Option<String>,
    /// Space-joined tab URLs of Google Chrome.
    pub chrome_urls: Option<String>,
    /// The files held open by the Dia browser.
    pub dia_open_files: Option<String>,
    /// Space-joined tab URLs of Safari.
    pub safari_urls: Option<String>,
    /// The audio device report.
    pub audio_info: Option<String>,
}

impl ProbeSnapshot {
    /// A snapshot in which every probe failed.
    pub fn empty() -> (r: ProbeSnapshot)
        ensures
            r.process_list is None,
            r.zoom_window is None,
            r.slack_titles is None,
            r.teams_window is None,
            r.discord_titles is None,
            r.chrome_urls is None,
            r.dia_open_files is None,
            r.safari_urls is None,
            r.audio_info is None,
    {
        ProbeSnapshot {
            process_list: None,
            zoom_window: None,
            slack_titles: None,
            teams_window: None,
            discord_titles: None,
            chrome_urls: None,
            dia_open_files: None,
            safari_urls: None,
            audio_info: None,
        }
    }
}

/// `o` is a successful probe output that contains `p`.
pub open spec fn output_has(o: Option<String>, p: Seq<char>) -> bool {
    match o {
        Some(s) => seq_contains(s@, p),
        None => false,
    }
}

pub open spec fn zoom_window_rule(snap: ProbeSnapshot) -> bool {
    output_has(snap.zoom_window, "true"@)
}

pub open spec fn slack_huddle_rule_titles(snap: ProbeSnapshot) -> bool {
    output_has(snap.slack_titles, "huddle"@) || output_has(snap.slack_titles, "Huddle"@)
}

pub open spec fn teams_call_rule(snap: ProbeSnapshot) -> bool {
    output_has(snap.teams_window, "true"@)
}

pub open spec fn discord_voice_rule(snap: ProbeSnapshot) -> bool {
    output_has(snap.discord_titles, "Voice Connected"@) || output_has(
        snap.discord_titles,
        "Screen Share"@,
    )
}

/// The process signal: an app counts only with its in-call marker.
pub open spec fn process_signal(snap: ProbeSnapshot) -> Option<MeetingAppView> {
    let p = snap.process_list;
    if (output_has(p, "zoom.us"@) || output_has(p, "CptHost"@)) && (output_has(p, "CptHost"@)
        || zoom_window_rule(snap)) {
        Some(MeetingAppView::Zoom)
    } else if output_has(p, "Slack"@) && slack_huddle_rule_titles(snap) {
        Some(MeetingAppView::SlackHuddle)
    } else if output_has(p, "Microsoft Teams"@) && teams_call_rule(snap) {
        Some(MeetingAppView::MicrosoftTeams)
    } else if output_has(p, "Discord"@) && discord_voice_rule(snap) {
        Some(MeetingAppView::Discord)
    } else {
        None
    }
}

/// The Dia browser holds an audio device open.
pub open spec fn dia_audio_rule(snap: ProbeSnapshot) -> bool {
    let o = snap.dia_open_files;
    output_has(o, "/dev/"@) && (output_has(o, "audio"@) || output_has(o, "mic"@) || output_has(
        o,
        "sound"@,
    ))
}

/// The name under which a meeting in the Dia browser is reported.
pub open spec fn dia_meeting_name() -> Seq<char> {
    "Meeting detected in Dia browser"@
}

pub open spec fn browser_urls_signal(o: Option<String>) -> Option<MeetingAppView> {
    match o {
        Some(u) => classify_urls(u@),
        None => None,
    }
}

/// The browser signal: Chrome, then Dia, then Safari.
pub open spec fn browser_signal(snap: ProbeSnapshot) -> Option<MeetingAppView> {
    if browser_urls_signal(snap.chrome_urls) is Some {
        browser_urls_signal(snap.chrome_urls)
    } else if dia_audio_rule(snap) {
        Some(MeetingAppView::Unknown(dia_meeting_name()))
    } else {
        browser_urls_signal(snap.safari_urls)
    }
}

/// The microphone signal, the weakest of the three.
pub open spec fn microphone_signal(snap: ProbeSnapshot) -> Option<MeetingAppView> {
    if output_has(snap.audio_info, "zoom"@) {
        Some(MeetingAppView::Zoom)
    } else {
        None
    }
}

/// The classifier: the first signal category that names an app wins.
pub open spec fn classify(snap: ProbeSnapshot) -> Option<MeetingAppView> {
    if process_signal(snap) is Some {
        process_signal(snap)
    } else if browser_signal(snap) is Some {
        browser_signal(snap)
    } else {
        microphone_signal(snap)
    }
}

fn output_contains(o: &Option<String>, p: &str) -> (r: bool)
    ensures
        r == output_has(*o, p@),
{
    match o {
        Some(s) => text_contains(s.as_str(), p),
        None => false,
    }
}

/// Zoom shows a meeting window.
pub fn check_zoom_meeting_window(snap: &ProbeSnapshot) -> (r: bool)
    ensures
        r == zoom_window_rule(*snap),
{
    output_contains(&snap.zoom_window, "true")
}

/// A Slack window title mentions a huddle.
pub fn check_slack_huddle_active(snap: &ProbeSnapshot) -> (r: bool)
    ensures
        r == slack_huddle_rule_titles(*snap),
{
    output_contains(&snap.slack_titles, "huddle") || output_contains(&snap.slack_titles, "Huddle")
}

/// Teams shows a call window.
pub fn check_teams_call_active(snap: &ProbeSnapshot) -> (r: bool)
    ensures
        r == teams_call_rule(*snap),
{
    output_contains(&snap.teams_window, "true")
}

/// A Discord window title shows a voice connection or a screen share.
pub fn check_discord_voice_active(snap: &ProbeSnapshot) -> (r: bool)
    ensures
        r == discord_voice_rule(*snap),
{
    output_contains(&snap.discord_titles, "Voice Connected") || output_contains(
        &snap.discord_titles,
        "Screen Share",
    )
}

/// The process signal of one tick.
pub fn check_running_processes(snap: &ProbeSnapshot) -> (r: Option<MeetingApp>)
    ensures
        app_view(r) == process_signal(*snap),
{
    let p = &snap.process_list;
    if (output_contains(p, "zoom.us") || output_contains(p, "CptHost")) && (output_contains(
        p,
        "CptHost",
    ) || check_zoom_meeting_window(snap)) {
        return Some(MeetingApp::Zoom);
    }
    if output_contains(p, "Slack") && check_slack_huddle_active(snap) {
        return Some(MeetingApp::SlackHuddle);
    }
    if output_contains(p, "Microsoft Teams") && check_teams_call_active(snap) {
        return Some(MeetingApp::MicrosoftTeams);
    }
    if output_contains(p, "Discord") && check_discord_voice_active(snap) {
        return Some(MeetingApp::Discord);
    }
    None
}

/// The Dia browser appears to hold an audio device.
pub fn check_dia_microphone_usage(snap: &ProbeSnapshot) -> (r: bool)
    ensures
        r == dia_audio_rule(*snap),
{
    let o = &snap.dia_open_files;
    output_contains(o, "/dev/") && (output_contains(o, "audio") || output_contains(o, "mic")
        || output_contains(o, "sound"))
}

fn check_urls(o: &Option<String>) -> (r: Option<MeetingApp>)
    ensures
        app_view(r) == browser_urls_signal(*o),
{
    match o {
        Some(u) => detect_meeting_from_urls(u.as_str()),
        None => None,
    }
}

/// The browser signal of one tick.
pub fn check_browser_meeting_urls(snap: &ProbeSnapshot) -> (r: Option<MeetingApp>)
    ensures
        app_view(r) == browser_signal(*snap),
{
    let chrome = check_urls(&snap.chrome_urls);
    if chrome.is_some() {
        return chrome;
    }
    if check_dia_microphone_usage(snap) {
        return Some(MeetingApp::Unknown(String::from_str("Meeting detected in Dia browser")));
    }
    check_urls(&snap.safari_urls)
}

/// The microphone signal of one tick.
pub fn check_microphone_usage(snap: &ProbeSnapshot) -> (r: Option<MeetingApp>)
    ensures
        app_view(r) == microphone_signal(*snap),
{
    if output_contains(&snap.audio_info, "zoom") {
        Some(MeetingApp::Zoom)
    } else {
        None
    }
}

/// The classifier: the meeting app that one tick's probe outputs show, if any.
pub fn detect_meeting_apps(snap: &ProbeSnapshot) -> (r: Option<MeetingApp>)
    ensures
        app_view(r) == classify(*snap),
{
    let by_process = check_running_processes(snap);
    if by_process.is_some() {
        return by_process;
    }
    let by_browser = check_browser_meeting_urls(snap);
    if by_browser.is_some() {
        return by_browser;
    }
    check_microphone_usage(snap)
}

// ---------------------------------------------------------------------------
// Meeting state and the detector
// ---------------------------------------------------------------------------

/// Whether a meeting is in progress, which app holds it and since when
/// (milliseconds since the Unix epoch, UTC).
#[derive(Debug, Clone)]
pub struct MeetingState {
    pub is_in_meeting: bool,
    pub detected_app: Option<MeetingApp>,
    pub started_at: Option<i64>,
}

impl MeetingState {
    /// The three fields agree: all set while in a meeting, all clear otherwise.
    pub open spec fn wf(&self) -> bool {
        &&& self.is_in_meeting == self.detected_app.is_some()
        &&& self.is_in_meeting == self.started_at.is_some()
    }

    /// The state outside any meeting.
    pub open spec fn idle_spec() -> MeetingState {
        MeetingState { is_in_meeting: false, detected_app: None, started_at: None }
    }

    /// The state outside any meeting.
    pub fn idle() -> (r: MeetingState)
        ensures
            r == MeetingState::idle_spec(),
            r.wf(),
    {
        MeetingState { is_in_meeting: false, detected_app: None, started_at: None }
    }

    /// A copy of this state.
    pub fn duplicate(&self) -> (r: MeetingState)
        ensures
            r == *self,
    {
        let app = match &self.detected_app {
            Some(a) => Some(a.duplicate()),
            None => None,
        };
        MeetingState { is_in_meeting: self.is_in_meeting, detected_app: app, started_at: self.started_at }
    }
}

/// What one polling tick did to the meeting state.
#[derive(Debug, Clone, Copy, PartialEq, Eq, Structural)]
pub enum MeetingTransition {
    /// No edge: the state is as before.
    Unchanged,
    /// A meeting began on this tick.
    Started,
    /// The meeting ended on this tick.
    Ended,
}

impl MeetingTransition {
    /// The notification that this transition sends: one per edge, none
    /// without an edge.
    pub fn event_name(&self) -> (r: Option<&'static str>)
        ensures
            *self == MeetingTransition::Started ==> (r matches Some(n) && n@ == "meeting-detected"@),
            *self == MeetingTransition::Ended ==> (r matches Some(n) && n@ == "meeting-ended"@),
            *self == MeetingTransition::Unchanged ==> r is None,
    {
        match self {
            MeetingTransition::Started => Some(Events::MEETING_DETECTED),
            MeetingTransition::Ended => Some(Events::MEETING_ENDED),
            MeetingTransition::Unchanged => None,
        }
    }
}

/// The state after one tick whose classifier verdict was `detected`, taken at
/// time `now`: a verdict while idle starts a meeting, no verdict while in a
/// meeting ends it, anything else changes nothing.
pub open spec fn next_meeting_state(s: MeetingState, detected: Option<MeetingApp>, now: i64) -> MeetingState {
    match detected {
        Some(app) => if !s.is_in_meeting {
            MeetingState { is_in_meeting: true, detected_app: Some(app), started_at: Some(now) }
        } else {
            s
        },
        None => if s.is_in_meeting {
            MeetingState::idle_spec()
        } else {
            s
        },
    }
}

/// The edge that such a tick takes.
pub open spec fn meeting_transition(s: MeetingState, detected: Option<MeetingApp>) -> MeetingTransition {
    if detected is Some && !s.is_in_meeting {
        MeetingTransition::Started
    } else if detected is None && s.is_in_meeting {
        MeetingTransition::Ended
    } else {
        MeetingTransition::Unchanged
    }
}

/// The state after a whole sequence of ticks, each a verdict and a time.
pub open spec fn run_ticks(s: MeetingState, ticks: Seq<(Option<MeetingApp>, i64)>) -> MeetingState
    decreases ticks.len(),
{
    if ticks.len() == 0 {
        s
    } else {
        run_ticks(next_meeting_state(s, ticks[0].0, ticks[0].1), ticks.drop_first())
    }
}

/// Whatever the sequence of ticks, the meeting flag, the app and the start
/// time stay in agreement.
pub proof fn lemma_ticks_keep_meeting_state_consistent(
    s: MeetingState,
    ticks: Seq<(Option<MeetingApp>, i64)>,
)
    requires
        s.wf(),
    ensures
        run_ticks(s, ticks).wf(),
    decreases ticks.len(),
{
    if ticks.len() > 0 {
        lemma_ticks_keep_meeting_state_consistent(
            next_meeting_state(s, ticks[0].0, ticks[0].1),
            ticks.drop_first(),
        );
    }
}

/// The meeting detector: the monitoring switch and the meeting state that
/// the polling loop updates.
///
/// Each start of monitoring opens a new generation; a polling loop keeps
/// running only while monitoring is on and its generation is the current
/// one, so a stop followed by a quick start never leaves two loops.
pub struct MeetingDetector {
    state: MeetingState,
    monitoring: bool,
    generation: u64,
}

impl MeetingDetector {
    #[verifier::type_invariant]
    spec fn inv(&self) -> bool {
        self.state.wf()
    }

    /// The current meeting state.
    pub closed spec fn state_spec(&self) -> MeetingState {
        self.state
    }

    /// Whether the polling loop is meant to run.
    pub closed spec fn monitoring_spec(&self) -> bool {
        self.monitoring
    }

    /// The current monitoring generation.
    pub closed spec fn generation_spec(&self) -> u64 {
        self.generation
    }

    /// A detector that is not monitoring and sees no meeting.
    pub fn new() -> (r: MeetingDetector)
        ensures
            !r.monitoring_spec(),
            r.state_spec() == MeetingState::idle_spec(),
    {
        MeetingDetector { state: MeetingState::idle(), monitoring: false, generation: 0 }
    }

    /// Switches monitoring on; fails when it is already on.
    pub fn start_monitoring(&mut self) -> (r: Result<(), String>)
        ensures
            old(self).monitoring_spec() <==> r is Err,
            r matches Err(e) ==> e@ == "Already monitoring"@ && *final(self) == *old(self),
            r is Ok ==> final(self).monitoring_spec() && final(self).state_spec()
                == old(self).state_spec() && final(self).generation_spec()
                != old(self).generation_spec(),
            r is Ok && old(self).generation_spec() < u64::MAX ==> final(self).generation_spec()
                == old(self).generation_spec() + 1,
    {
        proof {
            use_type_invariant(&*self);
        }
        if self.monitoring {
            return Err(String::from_str("Already monitoring"));
        }
        self.monitoring = true;
        self.generation = if self.generation < u64::MAX {
            self.generation + 1
        } else {
            0
        };
        Ok(())
    }

    /// Switches monitoring off; the loop stops at its next wake. Without
    /// monitoring on, nothing changes.
    pub fn stop_monitoring(&mut self)
        ensures
            !final(self).monitoring_spec(),
            final(self).state_spec() == old(self).state_spec(),
            final(self).generation_spec() == old(self).generation_spec(),
            !old(self).monitoring_spec() ==> *final(self) == *old(self),
    {
        proof {
            use_type_invariant(&*self);
        }
        self.monitoring = false;
    }

    /// Whether the polling loop should keep running.
    pub fn is_monitoring(&self) -> (r: bool)
        ensures
            r == self.monitoring_spec(),
    {
        self.monitoring
    }

    /// The current monitoring generation; a loop started now belongs to it.
    pub fn generation(&self) -> (r: u64)
        ensures
            r == self.generation_spec(),
    {
        self.generation
    }

    /// Whether the polling loop of generation `generation` should run on.
    pub fn keep_polling(&self, generation: u64) -> (r: bool)
        ensures
            r == (self.monitoring_spec() && generation == self.generation_spec()),
    {
        self.monitoring && generation == self.generation
    }

    /// A copy of the current meeting state.
    pub fn get_state(&self) -> (r: MeetingState)
        ensures
            r == self.state_spec(),
            r.wf(),
    {
        proof {
            use_type_invariant(self);
        }
        self.state.duplicate()
    }

    /// Applies one tick's classifier verdict, taken at time `now`.
    pub fn poll(&mut self, detected: Option<MeetingApp>, now: i64) -> (r: MeetingTransition)
        ensures
            final(self).state_spec() == next_meeting_state(old(self).state_spec(), detected, now),
            final(self).monitoring_spec() == old(self).monitoring_spec(),
            final(self).generation_spec() == old(self).generation_spec(),
            r == meeting_transition(old(self).state_spec(), detected),
            final(self).state_spec().wf(),
    {
        proof {
            use_type_invariant(&*self);
        }
        match detected {
            Some(app) => {
                if !self.state.is_in_meeting {
                    self.state = MeetingState {
                        is_in_meeting: true,
                        detected_app: Some(app),
                        started_at: Some(now),
                    };
                    return MeetingTransition::Started;
                }
                MeetingTransition::Unchanged
            },
            None => {
                if self.state.is_in_meeting {
                    self.state = MeetingState::idle();
                    return MeetingTransition::Ended;
                }
                MeetingTransition::Unchanged
            },
        }
    }
}

} // verus!
