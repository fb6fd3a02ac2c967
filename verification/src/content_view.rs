//! The window or view that shows the web interface.
//!
//! On macOS and Windows it is a view inside the main window, below the title bar; elsewhere
//! it is a window of its own. What is to be done with it is given as a list of steps.

use vstd::prelude::*;

use crate::adapters;
use crate::adapters::{parse_url, UrlParts, UrlView};
use crate::config::{PlatformTarget, WebviewWindowState};
use crate::text;
use crate::text::{after_prefix, chars_of, equal, string_of};

verus! {

/// No side of the window is smaller when it is restored.
pub const MIN_WINDOW_WIDTH: u32 = 760;

pub const MIN_WINDOW_HEIGHT: u32 = 520;

// ---------------------------------------------------------------------------
// Where a window stands
// ---------------------------------------------------------------------------

/// The area of a monitor.
#[derive(Debug, Clone, Copy, PartialEq, Eq, Structural)]
pub struct MonitorArea {
    pub x: i32,
    pub y: i32,
    pub width: u32,
    pub height: u32,
}

/// Enough of the window is on the monitor to be seen and taken hold of: 80 from side to side
/// and 50 from top to bottom.
pub open spec fn on_monitor(s: WebviewWindowState, m: MonitorArea) -> bool {
    &&& s.x + s.width >= m.x + 80
    &&& s.y + s.height >= m.y + 50
    &&& s.x <= m.x + m.width - 80
    &&& s.y <= m.y + m.height - 50
}

pub fn rectangles_overlap(
    x: i32,
    y: i32,
    width: u32,
    height: u32,
    monitor_x: i32,
    monitor_y: i32,
    monitor_width: u32,
    monitor_height: u32,
) -> (r: bool)
    ensures
        r == on_monitor(
            (WebviewWindowState { x, y, width, height }),
            (MonitorArea {
                x: monitor_x,
                y: monitor_y,
                width: monitor_width,
                height: monitor_height,
            }),
        ),
{
    let right: i64 = x as i64 + width as i64;
    let bottom: i64 = y as i64 + height as i64;
    let monitor_right: i64 = monitor_x as i64 + monitor_width as i64;
    let monitor_bottom: i64 = monitor_y as i64 + monitor_height as i64;
    right >= monitor_x as i64 + 80 && bottom >= monitor_y as i64 + 50 && x as i64 <= monitor_right
        - 80 && y as i64 <= monitor_bottom - 50
}

/// The window can be seen on one of the monitors.
pub open spec fn is_visible(s: WebviewWindowState, monitors: Seq<MonitorArea>) -> bool {
    exists|i: int| 0 <= i < monitors.len() && on_monitor(s, #[trigger] monitors[i])
}

#[verifier::loop_isolation(false)]
pub fn window_state_is_visible(monitors: &Vec<MonitorArea>, state: &WebviewWindowState) -> (r: bool)
    ensures
        r == is_visible(*state, monitors@),
{
    let mut i: usize = 0;
    while i < monitors.len()
        invariant
            i <= monitors@.len(),
            forall|j: int| 0 <= j < i ==> !on_monitor(*state, #[trigger] monitors@[j]),
        decreases monitors@.len() - i,
    {
        let m = monitors[i];
        if rectangles_overlap(
            state.x,
            state.y,
            state.width,
            state.height,
            m.x,
            m.y,
            m.width,
            m.height,
        ) {
            assert(on_monitor(*state, monitors@[i as int]));
            return true;
        }
        i = i + 1;
    }
    false
}

/// Where a window is put.
#[derive(Debug, Clone, Copy, PartialEq, Eq, Structural)]
pub enum Placement {
    At { x: i32, y: i32, width: u32, height: u32 },
    Center,
}

/// Where it stood, if that can still be seen, and not smaller than it may be.
pub open spec fn placed(saved: Option<WebviewWindowState>, monitors: Seq<MonitorArea>) -> Placement {
    match saved {
        Some(s) => if is_visible(s, monitors) {
            Placement::At {
                x: s.x,
                y: s.y,
                width: if s.width < 760 {
                    760
                } else {
                    s.width
                },
                height: if s.height < 520 {
                    520
                } else {
                    s.height
                },
            }
        } else {
            Placement::Center
        },
        None => Placement::Center,
    }
}

pub fn placement(saved: Option<WebviewWindowState>, monitors: &Vec<MonitorArea>) -> (r: Placement)
    ensures
        r == placed(saved, monitors@),
{
    match saved {
        Some(s) => {
            if window_state_is_visible(monitors, &s) {
                let width: u32 = if s.width < MIN_WINDOW_WIDTH {
                    MIN_WINDOW_WIDTH
                } else {
                    s.width
                };
                let height: u32 = if s.height < MIN_WINDOW_HEIGHT {
                    MIN_WINDOW_HEIGHT
                } else {
                    s.height
                };
                Placement::At { x: s.x, y: s.y, width, height }
            } else {
                Placement::Center
            }
        },
        None => Placement::Center,
    }
}

/// What is kept of a window's place: nothing where it is not known, and nothing of a window
/// that is hardly there.
pub fn save_window_state(position: Option<(i32, i32)>, size: Option<(u32, u32)>) -> (r: Option<
    WebviewWindowState,
>)
    ensures
        r == match (position, size) {
            (Some((x, y)), Some((width, height))) => if width < 100 || height < 100 {
                None
            } else {
                Some(WebviewWindowState { x, y, width, height })
            },
            _ => None,
        },
{
    match (position, size) {
        (Some((x, y)), Some((width, height))) => {
            if width < 100 || height < 100 {
                None
            } else {
                Some(WebviewWindowState { x, y, width, height })
            }
        },
        _ => None,
    }
}

/// A window that was saved where it could be seen, and was not too small, comes back where
/// it stood.
pub proof fn a_saved_window_comes_back(
    x: i32,
    y: i32,
    width: u32,
    height: u32,
    monitors: Seq<MonitorArea>,
)
    requires
        is_visible((WebviewWindowState { x, y, width, height }), monitors),
        width >= 760,
        height >= 520,
    ensures
        placed(Some(WebviewWindowState { x, y, width, height }), monitors) == (Placement::At {
            x,
            y,
            width,
            height,
        }),
{
}

// ---------------------------------------------------------------------------
// Opening and closing the view
// ---------------------------------------------------------------------------

/// One step with the view or its window.
#[derive(Debug)]
pub enum ViewStep {
    /// The view goes to this address.
    Navigate(String),
    /// The title bar is told whether the page is loaded.
    PageLoaded(bool),
    /// The content is no longer to be kept hidden.
    ClearHidden,
    Show,
    Hide,
    /// The main window, or the view's own, is shown and brought to the front.
    Raise,
    /// The size of the main window is asked for.
    Measure,
    /// A view with this address is added to the main window.
    AddChild(String),
    /// The title bar is told whether there is a view.
    Changed(bool),
    /// A window with this address is made.
    Build(String),
    Resize { width: u32, height: u32 },
    MoveTo { x: i32, y: i32 },
    Center,
    /// From now on the window's place is kept when it is closed.
    Persist,
    /// The new window is shown and gets the focus.
    ShowNew,
    SaveState,
    Close,
    Destroy,
}

pub enum StepView {
    Navigate(Seq<char>),
    PageLoaded(bool),
    ClearHidden,
    Show,
    Hide,
    Raise,
    Measure,
    AddChild(Seq<char>),
    Changed(bool),
    Build(Seq<char>),
    Resize { width: u32, height: u32 },
    MoveTo { x: i32, y: i32 },
    Center,
    Persist,
    ShowNew,
    SaveState,
    Close,
    Destroy,
}

pub open spec fn step_view(s: ViewStep) -> StepView {
    match s {
        ViewStep::Navigate(u) => StepView::Navigate(u@),
        ViewStep::PageLoaded(b) => StepView::PageLoaded(b),
        ViewStep::ClearHidden => StepView::ClearHidden,
        ViewStep::Show => StepView::Show,
        ViewStep::Hide => StepView::Hide,
        ViewStep::Raise => StepView::Raise,
        ViewStep::Measure => StepView::Measure,
        ViewStep::AddChild(u) => StepView::AddChild(u@),
        ViewStep::Changed(b) => StepView::Changed(b),
        ViewStep::Build(u) => StepView::Build(u@),
        ViewStep::Resize { width, height } => StepView::Resize { width, height },
        ViewStep::MoveTo { x, y } => StepView::MoveTo { x, y },
        ViewStep::Center => StepView::Center,
        ViewStep::Persist => StepView::Persist,
        ViewStep::ShowNew => StepView::ShowNew,
        ViewStep::SaveState => StepView::SaveState,
        ViewStep::Close => StepView::Close,
        ViewStep::Destroy => StepView::Destroy,
    }
}

pub open spec fn steps_view(v: Seq<ViewStep>) -> Seq<StepView> {
    v.map_values(|s: ViewStep| step_view(s))
}

/// What is said of a step that failed; nothing is said of most, and the next one is taken.
pub open spec fn step_complaint(s: ViewStep, error: Seq<char>) -> Option<Seq<char>> {
    match s {
        ViewStep::Navigate(_) => Some("导航内置 WebView 失败："@ + error),
        ViewStep::Raise | ViewStep::ShowNew => Some("显示内置 WebView 失败："@ + error),
        ViewStep::Measure | ViewStep::AddChild(_) | ViewStep::Build(_) => Some(
            "打开内置 WebView 失败："@ + error,
        ),
        ViewStep::Resize { .. } => Some("恢复内置 WebView 大小失败："@ + error),
        ViewStep::MoveTo { .. } => Some("恢复内置 WebView 位置失败："@ + error),
        ViewStep::Center => Some("居中内置 WebView 失败："@ + error),
        _ => None,
    }
}

pub fn step_failure(step: &ViewStep, error: &str) -> (r: Option<String>)
    ensures
        text::opt_text(r) == step_complaint(*step, error@),
{
    let what = match step {
        ViewStep::Navigate(_) => "导航内置 WebView 失败：",
        ViewStep::Raise | ViewStep::ShowNew => "显示内置 WebView 失败：",
        ViewStep::Measure | ViewStep::AddChild(_) | ViewStep::Build(_) => {
            "打开内置 WebView 失败："
        },
        ViewStep::Resize { .. } => "恢复内置 WebView 大小失败：",
        ViewStep::MoveTo { .. } => "恢复内置 WebView 位置失败：",
        ViewStep::Center => "居中内置 WebView 失败：",
        _ => return None,
    };
    Some(what.to_string().concat(error))
}

/// What is there when a view is to be opened.
#[derive(Debug)]
pub struct Scene {
    pub main_window: bool,
    /// The view, if there is one, with its address as far as it is known.
    pub view: Option<Option<String>>,
    /// The content is to be kept hidden.
    pub hidden: bool,
    pub saved: Option<WebviewWindowState>,
    pub monitors: Vec<MonitorArea>,
}

/// The view shows this address already, or is not to be moved.
pub open spec fn go_there(
    current: Option<Seq<char>>,
    url: Seq<char>,
    href: Seq<char>,
    allow_navigate: bool,
) -> StepView {
    if allow_navigate && current != Some(url) {
        StepView::Navigate(href)
    } else {
        StepView::PageLoaded(true)
    }
}

/// The steps for a view inside the main window.
pub open spec fn child_steps(scene: Scene, url: Seq<char>, href: Seq<char>, allow_navigate: bool) -> Seq<
    StepView,
> {
    match scene.view {
        Some(current) => seq![go_there(text::opt_text(current), url, href, allow_navigate)]
            + if !allow_navigate {
            seq![StepView::ClearHidden, StepView::Show, StepView::Raise]
        } else if scene.hidden {
            seq![StepView::Hide]
        } else {
            seq![StepView::Show, StepView::Raise]
        },
        None => seq![
            StepView::Measure,
            StepView::PageLoaded(false),
            StepView::AddChild(href),
            StepView::Hide,
            StepView::Raise,
            StepView::Changed(true),
        ],
    }
}

/// The steps for a window of its own.
pub open spec fn window_steps(scene: Scene, url: Seq<char>, href: Seq<char>, allow_navigate: bool) -> Seq<
    StepView,
> {
    match scene.view {
        Some(current) => seq![
            go_there(text::opt_text(current), url, href, allow_navigate),
            StepView::Raise,
        ],
        None => seq![StepView::Build(href)] + match placed(scene.saved, scene.monitors@) {
            Placement::At { x, y, width, height } => seq![
                StepView::Resize { width, height },
                StepView::MoveTo { x, y },
            ],
            Placement::Center => seq![StepView::Center],
        } + seq![
            StepView::Persist,
            StepView::ShowNew,
            StepView::PageLoaded(true),
            StepView::Changed(true),
        ],
    }
}

pub open spec fn inside_main_window(host: PlatformTarget) -> bool {
    host != PlatformTarget::Unix
}

/// What is done to open an address, or why it cannot be opened.
pub open spec fn opening(
    host: PlatformTarget,
    url: Seq<char>,
    allow_navigate: bool,
    scene: Scene,
) -> Result<Seq<StepView>, Seq<char>> {
    match adapters::url_of(url) {
        Err(e) => Err("无效的 DSH URL："@ + e),
        Ok(parts) => if !inside_main_window(host) {
            Ok(window_steps(scene, url, parts.href, allow_navigate))
        } else if !scene.main_window {
            Err("主窗口不可用"@)
        } else {
            Ok(child_steps(scene, url, parts.href, allow_navigate))
        },
    }
}

pub open spec fn steps_result(r: Result<Vec<ViewStep>, String>) -> Result<Seq<StepView>, Seq<char>> {
    match r {
        Ok(steps) => Ok(steps_view(steps@)),
        Err(e) => Err(e@),
    }
}

fn step(steps: &mut Vec<ViewStep>, s: ViewStep)
    ensures
        steps_view(final(steps)@) == steps_view(old(steps)@).push(step_view(s)),
{
    let ghost before = steps_view(steps@);
    steps.push(s);
    assert(steps_view(steps@) =~= before.push(step_view(s)));
}

fn no_steps() -> (r: Vec<ViewStep>)
    ensures
        steps_view(r@) == Seq::<StepView>::empty(),
{
    let steps: Vec<ViewStep> = Vec::new();
    assert(steps_view(steps@) =~= Seq::<StepView>::empty());
    steps
}

fn go(current: &Option<String>, url: &str, href: &str, allow_navigate: bool) -> (r: ViewStep)
    ensures
        step_view(r) == go_there(text::opt_text(*current), url@, href@, allow_navigate),
{
    let there = match current {
        Some(c) => equal(c.as_str(), url),
        None => false,
    };
    if allow_navigate && !there {
        ViewStep::Navigate(href.to_string())
    } else {
        ViewStep::PageLoaded(true)
    }
}

/// The steps of opening, for an address that was parsed.
pub fn open_parsed(
    host: PlatformTarget,
    url: &str,
    href: &str,
    allow_navigate: bool,
    scene: &Scene,
) -> (r: Result<Vec<ViewStep>, String>)
    ensures
        steps_result(r) == if !inside_main_window(host) {
            Ok(window_steps(*scene, url@, href@, allow_navigate))
        } else if !scene.main_window {
            Err("主窗口不可用"@)
        } else {
            Ok(child_steps(*scene, url@, href@, allow_navigate))
        },
{
    let mut steps = no_steps();
    if matches!(host, PlatformTarget::Unix) {
        match &scene.view {
            Some(current) => {
                step(&mut steps, go(current, url, href, allow_navigate));
                step(&mut steps, ViewStep::Raise);
            },
            None => {
                step(&mut steps, ViewStep::Build(href.to_string()));
                match placement(scene.saved, &scene.monitors) {
                    Placement::At { x, y, width, height } => {
                        step(&mut steps, ViewStep::Resize { width, height });
                        step(&mut steps, ViewStep::MoveTo { x, y });
                    },
                    Placement::Center => {
                        step(&mut steps, ViewStep::Center);
                    },
                }
                step(&mut steps, ViewStep::Persist);
                step(&mut steps, ViewStep::ShowNew);
                step(&mut steps, ViewStep::PageLoaded(true));
                step(&mut steps, ViewStep::Changed(true));
            },
        }
        assert(steps_view(steps@) =~= window_steps(*scene, url@, href@, allow_navigate));
        return Ok(steps);
    }
    if !scene.main_window {
        return Err("主窗口不可用".to_string());
    }
    match &scene.view {
        Some(current) => {
            step(&mut steps, go(current, url, href, allow_navigate));
            if !allow_navigate {
                step(&mut steps, ViewStep::ClearHidden);
                step(&mut steps, ViewStep::Show);
                step(&mut steps, ViewStep::Raise);
            } else if scene.hidden {
                step(&mut steps, ViewStep::Hide);
            } else {
                step(&mut steps, ViewStep::Show);
                step(&mut steps, ViewStep::Raise);
            }
        },
        None => {
            step(&mut steps, ViewStep::Measure);
            step(&mut steps, ViewStep::PageLoaded(false));
            step(&mut steps, ViewStep::AddChild(href.to_string()));
            step(&mut steps, ViewStep::Hide);
            step(&mut steps, ViewStep::Raise);
            step(&mut steps, ViewStep::Changed(true));
        },
    }
    assert(steps_view(steps@) =~= child_steps(*scene, url@, href@, allow_navigate));
    Ok(steps)
}

/// Opens the view, or brings it to the front. Only after a start of the service, which has
/// a new token, is a view that is there moved to the address; a view that the user asks for
/// is shown as it is.
pub fn open_content_view(
    host: PlatformTarget,
    url: &str,
    allow_navigate: bool,
    scene: &Scene,
) -> (r: Result<Vec<ViewStep>, String>)
    ensures
        steps_result(r) == opening(host, url@, allow_navigate, *scene),
{
    match parse_url(url) {
        Err(e) => Err("无效的 DSH URL：".to_string().concat(e.as_str())),
        Ok(parts) => open_parsed(host, url, parts.href.as_str(), allow_navigate, scene),
    }
}

/// What is done to close the view.
pub fn close_embedded_webview(host: PlatformTarget, open: bool) -> (r: Vec<ViewStep>)
    ensures
        steps_view(r@) == if !open {
            Seq::<StepView>::empty()
        } else if inside_main_window(host) {
            seq![StepView::Close, StepView::Changed(false)]
        } else {
            seq![StepView::SaveState, StepView::Destroy, StepView::Changed(false)]
        },
{
    let mut steps = no_steps();
    if open {
        if matches!(host, PlatformTarget::Unix) {
            step(&mut steps, ViewStep::SaveState);
            step(&mut steps, ViewStep::Destroy);
            step(&mut steps, ViewStep::Changed(false));
            assert(steps_view(steps@) =~= seq![
                StepView::SaveState,
                StepView::Destroy,
                StepView::Changed(false),
            ]);
        } else {
            step(&mut steps, ViewStep::Close);
            step(&mut steps, ViewStep::Changed(false));
            assert(steps_view(steps@) =~= seq![StepView::Close, StepView::Changed(false)]);
        }
    }
    steps
}

/// Whether the view counts as open: a window of its own must also be visible.
pub fn embedded_view_open(host: PlatformTarget, exists: bool, visible: Option<bool>) -> (r: bool)
    ensures
        r == (exists && (inside_main_window(host) || visible == Some(true))),
{
    if matches!(host, PlatformTarget::Unix) {
        exists && match visible {
            Some(v) => v,
            None => false,
        }
    } else {
        exists
    }
}

/// None of the steps loads a page.
pub open spec fn loads_nothing(steps: Seq<StepView>) -> bool {
    forall|i: int|
        0 <= i < steps.len() ==> !(#[trigger] steps[i] is Navigate) && !(steps[i] is AddChild)
            && !(steps[i] is Build)
}

/// None of the steps shows the content.
pub open spec fn shows_nothing(steps: Seq<StepView>) -> bool {
    forall|i: int| 0 <= i < steps.len() ==> !(#[trigger] steps[i] is Show)
}

/// A view that the user asks for is never loaded again.
pub proof fn showing_the_view_does_not_reload_it(
    host: PlatformTarget,
    url: Seq<char>,
    scene: Scene,
)
    requires
        scene.view is Some,
    ensures
        opening(host, url, false, scene) matches Ok(steps) ==> loads_nothing(steps),
{
}

/// A view inside the main window is not shown before its page is loaded, nor while the
/// content is to be kept hidden.
pub proof fn nothing_unfinished_is_shown(
    host: PlatformTarget,
    url: Seq<char>,
    scene: Scene,
    allow_navigate: bool,
)
    requires
        inside_main_window(host),
        scene.view is None || (allow_navigate && scene.hidden),
    ensures
        opening(host, url, allow_navigate, scene) matches Ok(steps) ==> shows_nothing(steps),
{
}

// ---------------------------------------------------------------------------
// Where the page may go
// ---------------------------------------------------------------------------

/// What is done about a page that wants to go somewhere.
#[derive(Debug)]
pub struct Navigation {
    /// The theme that the page reports.
    pub theme: Option<&'static str>,
    pub allow: bool,
    /// The address is given to the system's browser.
    pub open_outside: bool,
}

pub open spec fn same_origin(a: UrlView, b: UrlView) -> bool {
    a.scheme == b.scheme && a.host == b.host && a.port == b.port
}

pub open spec fn is_web(u: UrlView) -> bool {
    u.scheme == "http"@ || u.scheme == "https"@
}

/// The theme that a page reports in the fragment of its address. What is not known counts as
/// the system's.
pub open spec fn reported_theme(fragment: Option<Seq<char>>) -> Option<Seq<char>> {
    match fragment {
        None => None,
        Some(f) => match text::strip_prefix(f, "__dsh_theme__="@) {
            None => None,
            Some(theme) => Some(
                if theme == "dark"@ {
                    "dark"@
                } else if theme == "light"@ {
                    "light"@
                } else {
                    "system"@
                },
            ),
        },
    }
}

fn theme_in(fragment: &Option<String>) -> (r: Option<&'static str>)
    ensures
        match r {
            Some(t) => reported_theme(text::opt_text(*fragment)) == Some(t@),
            None => reported_theme(text::opt_text(*fragment)) is None,
        },
{
    match fragment {
        None => None,
        Some(f) => {
            let chars = chars_of(f.as_str());
            match after_prefix(chars.as_slice(), "__dsh_theme__=") {
                None => None,
                Some(theme) => {
                    let theme = string_of(theme);
                    if equal(theme.as_str(), "dark") {
                        Some("dark")
                    } else if equal(theme.as_str(), "light") {
                        Some("light")
                    } else {
                        Some("system")
                    }
                },
            }
        },
    }
}

fn same_opt(a: &Option<String>, b: &Option<String>) -> (r: bool)
    ensures
        r == (text::opt_text(*a) == text::opt_text(*b)),
{
    match (a, b) {
        (Some(a), Some(b)) => equal(a.as_str(), b.as_str()),
        (None, None) => true,
        _ => false,
    }
}

fn same_port(a: Option<u16>, b: Option<u16>) -> (r: bool)
    ensures
        r == (a == b),
{
    match (a, b) {
        (Some(a), Some(b)) => a == b,
        (None, None) => true,
        _ => false,
    }
}

fn goes_to_browser(next: &UrlParts) -> (r: bool)
    ensures
        r == is_web(next@),
{
    equal(next.scheme.as_str(), "http") || equal(next.scheme.as_str(), "https")
}

/// A page may go anywhere on the service's own origin. Other web addresses are given to the
/// browser, and nothing else is opened. Where the page is watched, a theme that it reports
/// is passed on.
pub fn on_navigation(home: &UrlParts, next: &UrlParts, watched: bool) -> (r: Navigation)
    ensures
        r.allow == same_origin(home@, next@),
        r.open_outside == (!same_origin(home@, next@) && is_web(next@)),
        match r.theme {
            Some(t) => watched && reported_theme(next@.fragment) == Some(t@),
            None => !watched || reported_theme(next@.fragment) is None,
        },
{
    let theme = if watched {
        theme_in(&next.fragment)
    } else {
        None
    };
    let allow = equal(home.scheme.as_str(), next.scheme.as_str()) && same_opt(
        &home.host,
        &next.host,
    ) && same_port(home.port, next.port);
    Navigation { theme, allow, open_outside: !allow && goes_to_browser(next) }
}

/// No page gets a new window; whether the address is given to the browser.
pub fn on_new_window(next: &UrlParts) -> (r: bool)
    ensures
        r == is_web(next@),
{
    goes_to_browser(next)
}

/// The parts of an address.
pub fn address(url: &str) -> (r: Result<UrlParts, String>)
    ensures
        match r {
            Ok(parts) => adapters::url_of(url@) == Ok::<UrlView, Seq<char>>(parts@),
            Err(e) => adapters::url_of(url@) == Err::<UrlView, Seq<char>>(e@),
        },
{
    parse_url(url)
}

// ---------------------------------------------------------------------------
// The theme of the page
// ---------------------------------------------------------------------------

/// The theme that is set for the page: what is not dark is light.
pub fn content_theme(theme: &str) -> (r: &'static str)
    ensures
        r@ == if theme@ == "dark"@ {
            "dark"@
        } else {
            "light"@
        },
{
    if equal(theme, "dark") {
        "dark"
    } else {
        "light"
    }
}

/// The script that sets a theme: it is kept for the next load, applied, and announced.
pub open spec fn theme_script(theme: Seq<char>) -> Seq<char> {
    "(() => {\n  const theme = '"@ + theme
        + "';\n  try { localStorage.setItem('__DSH_LAUNCHER_THEME__', theme); } catch (error) {}\n  window.__DSH_SYSTEM_THEME__ = theme;\n  if (document.documentElement) {\n    document.documentElement.dataset.systemTheme = theme;\n    document.documentElement.style.colorScheme = theme;\n  }\n  if (document.body) {\n    if (theme === 'dark') document.body.setAttribute('data-ds-dark-theme', '');\n    else document.body.removeAttribute('data-ds-dark-theme');\n  }\n  window.dispatchEvent(new CustomEvent('dsh-system-theme-change', { detail: { theme } }));\n})();"@
}

pub fn theme_apply_script(theme: &str) -> (r: String)
    ensures
        r@ == theme_script(theme@),
{
    "(() => {\n  const theme = '".to_string().concat(theme).concat(
        "';\n  try { localStorage.setItem('__DSH_LAUNCHER_THEME__', theme); } catch (error) {}\n  window.__DSH_SYSTEM_THEME__ = theme;\n  if (document.documentElement) {\n    document.documentElement.dataset.systemTheme = theme;\n    document.documentElement.style.colorScheme = theme;\n  }\n  if (document.body) {\n    if (theme === 'dark') document.body.setAttribute('data-ds-dark-theme', '');\n    else document.body.removeAttribute('data-ds-dark-theme');\n  }\n  window.dispatchEvent(new CustomEvent('dsh-system-theme-change', { detail: { theme } }));\n})();",
    )
}

/// What happens when a page begins or ends to load: the theme is set before the title bar
/// is told, so that it is in place when the page is shown.
pub fn on_page_load(finished: bool, theme: Option<&str>) -> (r: (Option<String>, bool))
    ensures
        r.1 == finished,
        text::opt_text(r.0) == match theme {
            Some(t) => if finished {
                Some(theme_script(t@))
            } else {
                None
            },
            None => None,
        },
{
    let script = match theme {
        Some(t) => if finished {
            Some(theme_apply_script(t))
        } else {
            None
        },
        None => None,
    };
    (script, finished)
}

// ---------------------------------------------------------------------------
// What is seen, shown and opened
// ---------------------------------------------------------------------------

/// A window that is wholly on a monitor can be seen there, and one that is wholly beside it
/// cannot; in between it must reach 80 pixels into the monitor from either side, and 50 from
/// above or below.
pub proof fn a_window_is_seen_where_it_reaches_a_monitor(
    s: WebviewWindowState,
    m: MonitorArea,
)
    ensures
        s.width >= 80 && s.height >= 50 && m.x <= s.x && m.y <= s.y && s.x + s.width <= m.x
            + m.width && s.y + s.height <= m.y + m.height ==> on_monitor(s, m),
        s.x + s.width <= m.x || s.x >= m.x + m.width || s.y + s.height <= m.y || s.y >= m.y
            + m.height ==> !on_monitor(s, m),
        on_monitor(s, m) <==> s.x + s.width - m.x >= 80 && m.x + m.width - s.x >= 80 && s.y
            + s.height - m.y >= 50 && m.y + m.height - s.y >= 50,
{
}

/// A window that was saved where it cannot be seen, or not at all, is centred; one that was
/// too small comes back where it was, with 760 by 520 at the least.
pub proof fn a_window_out_of_sight_is_centred(
    s: WebviewWindowState,
    monitors: Seq<MonitorArea>,
)
    ensures
        placed(None, monitors) == Placement::Center,
        (forall|i: int| 0 <= i < monitors.len() ==> !on_monitor(s, #[trigger] monitors[i]))
            ==> placed(Some(s), monitors) == Placement::Center,
        (exists|i: int| 0 <= i < monitors.len() && on_monitor(s, #[trigger] monitors[i])) ==> {
            let p = placed(Some(s), monitors);
            &&& p is At
            &&& p->x == s.x && p->y == s.y
            &&& p->width >= 760 && p->width >= s.width && (p->width == 760 || p->width == s.width)
            &&& p->height >= 520 && p->height >= s.height && (p->height == 520 || p->height
                == s.height)
        },
{
}

/// An address that cannot be read is not opened, nor is one inside a main window that is not
/// there; every other one is. Only elsewhere than on macOS and Windows has the view a window of
/// its own.
pub proof fn an_address_that_can_be_read_is_opened(
    host: PlatformTarget,
    url: Seq<char>,
    allow_navigate: bool,
    scene: Scene,
)
    ensures
        ({
            let r = opening(host, url, allow_navigate, scene);
            let inside = host == PlatformTarget::MacOS || host == PlatformTarget::Windows;
            r is Ok <==> adapters::url_of(url) is Ok && (!inside || scene.main_window)
        }),
{
}

/// A view that is not there is made, with the address that was given: inside the main window it
/// is kept hidden until its page is there, and a window of its own is put in its place and
/// shown.
pub proof fn a_view_is_made_where_there_is_none(
    host: PlatformTarget,
    url: Seq<char>,
    allow_navigate: bool,
    scene: Scene,
)
    requires
        scene.view is None,
        opening(host, url, allow_navigate, scene) is Ok,
    ensures
        ({
            let steps = opening(host, url, allow_navigate, scene)->Ok_0;
            let href = adapters::url_of(url)->Ok_0.href;
            let saved = placed(scene.saved, scene.monitors@);
            &&& host != PlatformTarget::Unix ==> steps == seq![
                StepView::Measure,
                StepView::PageLoaded(false),
                StepView::AddChild(href),
                StepView::Hide,
                StepView::Raise,
                StepView::Changed(true),
            ]
            &&& host == PlatformTarget::Unix && saved is Center ==> steps == seq![
                StepView::Build(href),
                StepView::Center,
                StepView::Persist,
                StepView::ShowNew,
                StepView::PageLoaded(true),
                StepView::Changed(true),
            ]
            &&& host == PlatformTarget::Unix && saved is At ==> steps == seq![
                StepView::Build(href),
                StepView::Resize { width: saved->width, height: saved->height },
                StepView::MoveTo { x: saved->x, y: saved->y },
                StepView::Persist,
                StepView::ShowNew,
                StepView::PageLoaded(true),
                StepView::Changed(true),
            ]
        }),
{
    let steps = opening(host, url, allow_navigate, scene)->Ok_0;
    let href = adapters::url_of(url)->Ok_0.href;
    let saved = placed(scene.saved, scene.monitors@);
    if host == PlatformTarget::Unix {
        if saved is Center {
            assert(steps =~= seq![
                StepView::Build(href),
                StepView::Center,
                StepView::Persist,
                StepView::ShowNew,
                StepView::PageLoaded(true),
                StepView::Changed(true),
            ]);
        } else {
            assert(steps =~= seq![
                StepView::Build(href),
                StepView::Resize { width: saved->width, height: saved->height },
                StepView::MoveTo { x: saved->x, y: saved->y },
                StepView::Persist,
                StepView::ShowNew,
                StepView::PageLoaded(true),
                StepView::Changed(true),
            ]);
        }
    }
}

/// A view that is there goes to the address only if it may, and if it is elsewhere; then it is
/// shown, unless the content is kept hidden and the user did not ask for it.
pub proof fn a_view_that_is_there_is_brought_up(
    host: PlatformTarget,
    url: Seq<char>,
    allow_navigate: bool,
    scene: Scene,
    current: Option<String>,
)
    requires
        scene.view == Some(current),
        opening(host, url, allow_navigate, scene) is Ok,
    ensures
        ({
            let steps = opening(host, url, allow_navigate, scene)->Ok_0;
            let href = adapters::url_of(url)->Ok_0.href;
            let there = current matches Some(c) && c@ == url;
            &&& allow_navigate && !there ==> steps[0] == StepView::Navigate(href)
            &&& !allow_navigate || there ==> steps[0] == StepView::PageLoaded(true)
            &&& host == PlatformTarget::Unix ==> steps.skip(1) == seq![StepView::Raise]
            &&& host != PlatformTarget::Unix && !allow_navigate ==> steps.skip(1) == seq![
                StepView::ClearHidden,
                StepView::Show,
                StepView::Raise,
            ]
            &&& host != PlatformTarget::Unix && allow_navigate && scene.hidden ==> steps.skip(1)
                == seq![StepView::Hide]
            &&& host != PlatformTarget::Unix && allow_navigate && !scene.hidden ==> steps.skip(1)
                == seq![StepView::Show, StepView::Raise]
        }),
{
    let steps = opening(host, url, allow_navigate, scene)->Ok_0;
    if host == PlatformTarget::Unix {
        assert(steps.skip(1) =~= seq![StepView::Raise]);
    } else if !allow_navigate {
        assert(steps.skip(1) =~= seq![StepView::ClearHidden, StepView::Show, StepView::Raise]);
    } else if scene.hidden {
        assert(steps.skip(1) =~= seq![StepView::Hide]);
    } else {
        assert(steps.skip(1) =~= seq![StepView::Show, StepView::Raise]);
    }
}

/// Two addresses have one origin exactly if their schemes, hosts and ports agree, whatever else
/// differs; the browser gets what is `http` or `https`.
pub proof fn an_origin_is_scheme_host_and_port(a: UrlView, b: UrlView)
    ensures
        same_origin(a, b) <==> a.scheme == b.scheme && a.host == b.host && a.port == b.port,
        is_web(a) <==> a.scheme == "http"@ || a.scheme == "https"@,
{
}

/// A page reports its theme behind `__dsh_theme__=`; what it reports otherwise is no theme, and
/// a theme that is not known is the system's.
pub proof fn a_page_reports_its_theme(theme: Seq<char>, fragment: Seq<char>)
    ensures
        reported_theme(Some("__dsh_theme__="@ + "dark"@)) == Some("dark"@),
        reported_theme(Some("__dsh_theme__="@ + "light"@)) == Some("light"@),
        theme != "dark"@ && theme != "light"@ ==> reported_theme(Some("__dsh_theme__="@ + theme))
            == Some("system"@),
        !text::starts_with(fragment, "__dsh_theme__="@) ==> reported_theme(Some(fragment)) is None,
        reported_theme(None) is None,
{
    reveal_strlit("dark");
    reveal_strlit("light");
    let lead = "__dsh_theme__="@;
    lemma_behind(lead, "dark"@);
    lemma_behind(lead, "light"@);
    lemma_behind(lead, theme);
    assert("dark"@.len() == 4 && "light"@.len() == 5);
}

proof fn lemma_behind(lead: Seq<char>, rest: Seq<char>)
    ensures
        text::strip_prefix(lead + rest, lead) == Some(rest),
{
    assert((lead + rest).take(lead.len() as int) =~= lead);
    assert((lead + rest).skip(lead.len() as int) =~= rest);
}

/// The script that sets a theme begins by naming it, and keeps, applies and announces what it
/// named.
pub proof fn a_theme_is_named_kept_and_announced(theme: Seq<char>)
    ensures
        text::starts_with(theme_script(theme), "(() => {\n  const theme = '"@ + theme),
        text::ends_with(
            theme_script(theme),
            "';\n  try { localStorage.setItem('__DSH_LAUNCHER_THEME__', theme); } catch (error) {}\n  window.__DSH_SYSTEM_THEME__ = theme;\n  if (document.documentElement) {\n    document.documentElement.dataset.systemTheme = theme;\n    document.documentElement.style.colorScheme = theme;\n  }\n  if (document.body) {\n    if (theme === 'dark') document.body.setAttribute('data-ds-dark-theme', '');\n    else document.body.removeAttribute('data-ds-dark-theme');\n  }\n  window.dispatchEvent(new CustomEvent('dsh-system-theme-change', { detail: { theme } }));\n})();"@,
        ),
{
    let r = theme_script(theme);
    let front = "(() => {\n  const theme = '"@ + theme;
    assert(r.take(front.len() as int) =~= front);
    let back =
        "';\n  try { localStorage.setItem('__DSH_LAUNCHER_THEME__', theme); } catch (error) {}\n  window.__DSH_SYSTEM_THEME__ = theme;\n  if (document.documentElement) {\n    document.documentElement.dataset.systemTheme = theme;\n    document.documentElement.style.colorScheme = theme;\n  }\n  if (document.body) {\n    if (theme === 'dark') document.body.setAttribute('data-ds-dark-theme', '');\n    else document.body.removeAttribute('data-ds-dark-theme');\n  }\n  window.dispatchEvent(new CustomEvent('dsh-system-theme-change', { detail: { theme } }));\n})();"@;
    assert(r.skip(r.len() - back.len()) =~= back);
}

/// A step fails the opening if the view cannot be had, reached, placed or brought to the front;
/// whatever else fails is passed over.
pub proof fn only_what_matters_fails_the_opening(
    url: String,
    width: u32,
    height: u32,
    x: i32,
    y: i32,
    b: bool,
    error: Seq<char>,
)
    ensures
        step_complaint(ViewStep::Navigate(url), error) is Some,
        step_complaint(ViewStep::Raise, error) is Some,
        step_complaint(ViewStep::ShowNew, error) is Some,
        step_complaint(ViewStep::Measure, error) is Some,
        step_complaint(ViewStep::AddChild(url), error) is Some,
        step_complaint(ViewStep::Build(url), error) is Some,
        step_complaint(ViewStep::Resize { width, height }, error) is Some,
        step_complaint(ViewStep::MoveTo { x, y }, error) is Some,
        step_complaint(ViewStep::Center, error) is Some,
        step_complaint(ViewStep::PageLoaded(b), error) is None,
        step_complaint(ViewStep::ClearHidden, error) is None,
        step_complaint(ViewStep::Show, error) is None,
        step_complaint(ViewStep::Hide, error) is None,
        step_complaint(ViewStep::Changed(b), error) is None,
        step_complaint(ViewStep::Persist, error) is None,
        step_complaint(ViewStep::SaveState, error) is None,
        step_complaint(ViewStep::Close, error) is None,
        step_complaint(ViewStep::Destroy, error) is None,
{
}

/// A step is seen as the step that it is.
pub proof fn a_step_is_seen_as_it_is(
    url: String,
    width: u32,
    height: u32,
    x: i32,
    y: i32,
    b: bool,
)
    ensures
        step_view(ViewStep::Navigate(url)) == StepView::Navigate(url@),
        step_view(ViewStep::PageLoaded(b)) == StepView::PageLoaded(b),
        step_view(ViewStep::ClearHidden) == StepView::ClearHidden,
        step_view(ViewStep::Show) == StepView::Show,
        step_view(ViewStep::Hide) == StepView::Hide,
        step_view(ViewStep::Raise) == StepView::Raise,
        step_view(ViewStep::Measure) == StepView::Measure,
        step_view(ViewStep::AddChild(url)) == StepView::AddChild(url@),
        step_view(ViewStep::Changed(b)) == StepView::Changed(b),
        step_view(ViewStep::Build(url)) == StepView::Build(url@),
        step_view(ViewStep::Resize { width, height }) == (StepView::Resize { width, height }),
        step_view(ViewStep::MoveTo { x, y }) == (StepView::MoveTo { x, y }),
        step_view(ViewStep::Center) == StepView::Center,
        step_view(ViewStep::Persist) == StepView::Persist,
        step_view(ViewStep::ShowNew) == StepView::ShowNew,
        step_view(ViewStep::SaveState) == StepView::SaveState,
        step_view(ViewStep::Close) == StepView::Close,
        step_view(ViewStep::Destroy) == StepView::Destroy,
{
}

} // verus!
