//! The drawer's decisions: when it slides up or down, which category it
//! shows, what the search box holds, which apps the grid lists and what a
//! click does. Timing, drawing and hit-testing in screen space are left to
//! the windowing layer, which feeds the results in here.
use vstd::prelude::*;
use crate::config::{AppEntry, Config, remove_app_spec};
use crate::text::{
    chars_of, contains_chars, contains_spec, eq_ignore_ascii_case, eq_ignore_ascii_case_spec,
    is_control_spec, lowercase, push_str, push_visible, string_pop, to_lowercase, visible_chars,
};

verus! {

/// Wakes the event loop from another thread without any other payload.
pub enum UserEvent {
    Wake,
}

/// Where the drawer is in its slide animation; `start` is the moment the
/// current slide began, in the caller's clock.
#[derive(Debug, Clone, Copy, PartialEq, Eq, Structural)]
pub enum DrawerState {
    Hidden,
    SlidingUp { start: u64 },
    Shown,
    SlidingDown { start: u64 },
}

/// The part of the drawer under the mouse pointer.
#[derive(Debug, Clone, Copy, PartialEq, Eq, Structural)]
pub enum Hovered {
    Nothing,
    /// The tile of the `i`-th listed app.
    App(usize),
    /// The remove badge of the `i`-th listed app.
    AppRemove(usize),
    /// The "Add app" tile.
    Add,
}

/// The key of a key press, as far as the search box cares.
pub enum LogicalKey {
    Backspace,
    Escape,
    /// A key that produces a character; the string is that character.
    Character(String),
    Other,
}

/// A key press: the key and the text it types, if any.
pub struct KeyPress {
    pub key: LogicalKey,
    pub text: Option<String>,
}

/// What a key press asks of the caller.
#[derive(Debug, Clone, Copy, PartialEq, Eq, Structural)]
pub enum KeyOutcome {
    /// Ctrl+V: read the clipboard and hand its text to [`Drawer::paste`].
    Paste,
    /// The search text was edited (or left alone) in place.
    Edited,
}

/// What a left click asks of the caller.
pub enum LeftClick {
    /// Start `target` (when the clicked tile still lists an app); the drawer
    /// has begun to toggle, and `show_window` says whether it has to be
    /// placed at its hidden position and made visible first.
    Launch { target: Option<String>, show_window: bool },
    /// `path` was unpinned: save the list and forget its icon.
    Removed { path: String },
    /// Let the user pick an executable and hand it to [`Drawer::add_picked`].
    PickFile,
    Nothing,
}

/// How a request for a category is answered.
#[derive(Debug, Clone, Copy, PartialEq, Eq, Structural)]
pub enum Request {
    /// The category is already shown: the drawer toggles. `show_window`
    /// says whether the window has to be placed and made visible.
    Toggled { show_window: bool },
    /// Another category: load its app list and hand it to
    /// [`Drawer::switch_to`].
    Switch,
}

/// How a finished slide ends.
#[derive(Debug, Clone, Copy, PartialEq, Eq, Structural)]
pub enum SlideEnd {
    /// No slide was running.
    Idle,
    /// The drawer is fully up: give it the focus.
    Shown,
    /// The drawer is fully down: hide the window.
    Hidden,
}

/// The drawer's state apart from timing and drawing.
pub struct Drawer {
    pub state: DrawerState,
    pub active_category: Option<String>,
    pub search: String,
    pub hovered: Hovered,
    pub config: Config,
}

/// The drawer is on its way up or up: the state a request for it aims at.
pub open spec fn heading_up(s: DrawerState) -> bool {
    s is SlidingUp || s is Shown
}

/// The state after a click on the drawer's pin: a hidden or sinking drawer
/// starts to slide up, a shown or rising one starts to slide down.
pub open spec fn toggled(s: DrawerState, now: u64) -> DrawerState {
    match s {
        DrawerState::Hidden => DrawerState::SlidingUp { start: now },
        DrawerState::SlidingUp { .. } => DrawerState::SlidingDown { start: now },
        DrawerState::Shown => DrawerState::SlidingDown { start: now },
        DrawerState::SlidingDown { .. } => DrawerState::SlidingUp { start: now },
    }
}

/// The state after switching to another category: a hidden drawer opens,
/// a sinking one turns round, a rising or shown one carries on.
pub open spec fn switched(s: DrawerState, now: u64) -> DrawerState {
    match s {
        DrawerState::Hidden => DrawerState::SlidingUp { start: now },
        DrawerState::SlidingDown { .. } => DrawerState::SlidingUp { start: now },
        _ => s,
    }
}

/// The state once the running slide has finished.
pub open spec fn settled(s: DrawerState) -> DrawerState {
    match s {
        DrawerState::SlidingUp { .. } => DrawerState::Shown,
        DrawerState::SlidingDown { .. } => DrawerState::Hidden,
        _ => s,
    }
}

/// An app is listed for a search when the search is empty or its
/// lower-cased name contains the lower-cased search.
pub open spec fn matches_search(name: Seq<char>, search: Seq<char>) -> bool {
    lowercase(search).len() == 0 || contains_spec(lowercase(name), lowercase(search))
}

/// The apps the grid lists for `search`, in their pinned order.
pub open spec fn filtered_spec(apps: Seq<AppEntry>, search: Seq<char>) -> Seq<AppEntry> {
    apps.filter(|a: AppEntry| matches_search(a.name@, search))
}

/// The characters of an optional string.
pub open spec fn opt_string_view(o: Option<String>) -> Option<Seq<char>> {
    match o {
        Some(s) => Some(s@),
        None => None,
    }
}

/// The search text after a key press that is not a paste: Backspace drops
/// the last character, Escape clears it, other keys append the visible
/// characters they type.
pub open spec fn edited_search(search: Seq<char>, key: LogicalKey, text: Option<Seq<char>>) -> Seq<
    char,
> {
    match key {
        LogicalKey::Backspace => if search.len() > 0 {
            search.drop_last()
        } else {
            search
        },
        LogicalKey::Escape => Seq::empty(),
        _ => match text {
            Some(t) => search + visible_chars(t),
            None => search,
        },
    }
}

/// A key press is a paste when Ctrl is held and the key types `v` or `V`.
pub open spec fn is_paste(ctrl_held: bool, key: LogicalKey) -> bool {
    ctrl_held && (key matches LogicalKey::Character(c) && eq_ignore_ascii_case_spec(c@, "v"@))
}

/// The search text holds no control characters.
pub open spec fn no_controls(s: Seq<char>) -> bool {
    forall|i: int| 0 <= i < s.len() ==> !is_control_spec(#[trigger] s[i])
}

/// Packs a colour into GDI+'s 32-bit ARGB form.
pub open spec fn argb_spec(a: u8, r: u8, g: u8, b: u8) -> int {
    a * 16777216 + r * 65536 + g * 256 + b
}

/// A colour with alpha `a` and channels `r`, `g`, `b`, packed as ARGB.
pub fn argb(a: u8, r: u8, g: u8, b: u8) -> (c: u32)
    ensures
        c == argb_spec(a, r, g, b),
{
    let c = ((a as u32) << 24) | ((r as u32) << 16) | ((g as u32) << 8) | (b as u32);
    assert(((a as u32) << 24) | ((r as u32) << 16) | ((g as u32) << 8) | (b as u32) == (a as u32)
        * 16777216 + (r as u32) * 65536 + (g as u32) * 256 + (b as u32)) by (bit_vector);
    c
}

/// The grid cell `(column, row)` of the `index`-th tile.
pub fn grid_cell(index: usize, columns: usize) -> (r: (usize, usize))
    requires
        columns >= 1,
    ensures
        r.0 == index % columns,
        r.1 == index / columns,
        r.1 * columns + r.0 == index,
{
    let col = index % columns;
    let row = index / columns;
    assert(row * columns + col == index) by (nonlinear_arith)
        requires
            col == index % columns,
            row == index / columns,
            columns >= 1,
    ;
    (col, row)
}

/// Rows the grid needs for `tiles` tiles: enough for all of them, and at
/// least one.
pub open spec fn grid_rows_spec(tiles: int, columns: int) -> int {
    let rows = if tiles % columns == 0 {
        tiles / columns
    } else {
        tiles / columns + 1
    };
    if rows < 1 {
        1
    } else {
        rows
    }
}

/// How many rows `tiles` tiles take in `columns` columns (at least one).
pub fn grid_rows(tiles: usize, columns: usize) -> (r: usize)
    requires
        columns >= 1,
    ensures
        r == grid_rows_spec(tiles as int, columns as int),
        r * columns >= tiles,
{
    let rows = if tiles % columns == 0 {
        tiles / columns
    } else {
        assert(tiles / columns < tiles) by (nonlinear_arith)
            requires
                columns >= 1,
                tiles % columns != 0,
        {
            assert(columns >= 2);
        }
        tiles / columns + 1
    };
    assert(rows * columns >= tiles) by (nonlinear_arith)
        requires
            columns >= 1,
            tiles % columns == 0 ==> rows == tiles / columns,
            tiles % columns != 0 ==> rows == tiles / columns + 1,
    {
        assert(tiles == (tiles / columns) * columns + tiles % columns);
    }
    let r = if rows < 1 {
        1
    } else {
        rows
    };
    assert(r * columns >= tiles) by (nonlinear_arith)
        requires
            columns >= 1,
            rows * columns >= tiles,
            r >= rows,
    ;
    r
}

/// The window title: the product name, followed by the category's name for
/// a category drawer.
pub fn window_title(category: Option<&str>) -> (r: String)
    ensures
        r@ == match category {
            Some(name) => "Onyx Launcher - "@ + name@,
            None => "Onyx Launcher"@,
        },
{
    match category {
        Some(name) => {
            let mut t = "Onyx Launcher - ".to_owned();
            push_str(&mut t, name);
            t
        },
        None => "Onyx Launcher".to_owned(),
    }
}

/// The label of a picked executable: its file stem, or `App` when it has
/// none.
pub fn picked_app_name(stem: Option<&str>) -> (r: String)
    ensures
        r@ == match stem {
            Some(s) => s@,
            None => "App"@,
        },
{
    match stem {
        Some(s) => s.to_owned(),
        None => "App".to_owned(),
    }
}

/// The apps listed for `search`, in their pinned order.
pub fn filter_apps(apps: &Vec<AppEntry>, search: &str) -> (r: Vec<AppEntry>)
    ensures
        r@ == filtered_spec(apps@, search@),
        search@.len() == 0 ==> r@ == apps@,
{
    let search_lower = to_lowercase(search);
    proof {
        if search@.len() == 0 {
            lemma_empty_search_lists_all(apps@, search@);
        }
    }
    let needle = chars_of(search_lower.as_str());
    let n = apps.len();
    let mut out: Vec<AppEntry> = Vec::new();
    let mut i: usize = 0;
    while i < n
        invariant
            n == apps@.len(),
            needle@ == lowercase(search@),
            i <= n,
            out@ == filtered_spec(apps@.take(i as int), search@),
        decreases n - i,
    {
        proof {
            reveal_with_fuel(Seq::filter, 1);
            assert(apps@.take(i + 1).drop_last() =~= apps@.take(i as int));
        }
        let a = &apps[i];
        let keep = if needle.len() == 0 {
            true
        } else {
            let name_lower = to_lowercase(a.name.as_str());
            let hay = chars_of(name_lower.as_str());
            contains_chars(&hay, &needle)
        };
        if keep {
            out.push(a.clone());
        }
        i = i + 1;
    }
    assert(apps@.take(n as int) =~= apps@);
    out
}

/// With an empty search every pinned app is listed.
pub proof fn lemma_empty_search_lists_all(apps: Seq<AppEntry>, search: Seq<char>)
    requires
        lowercase(search).len() == 0,
    ensures
        filtered_spec(apps, search) == apps,
    decreases apps.len(),
{
    reveal_with_fuel(Seq::filter, 1);
    if apps.len() > 0 {
        lemma_empty_search_lists_all(apps.drop_last(), search);
        assert(apps.drop_last().push(apps.last()) =~= apps);
    } else {
        assert(filtered_spec(apps, search) =~= apps);
    }
}

/// The apps' names, in order.
pub open spec fn app_names(apps: Seq<AppEntry>) -> Seq<Seq<char>> {
    apps.map_values(|a: AppEntry| a.name@)
}

/// The grid lists the pinned apps chosen by their names alone: every
/// listed app is pinned and, for a search that is not empty once
/// lower-cased, its lower-cased name contains the lower-cased search; and
/// every pinned app whose name does so is listed.
pub proof fn lemma_filter_by_name(apps: Seq<AppEntry>, search: Seq<char>)
    ensures
        forall|k: int|
            0 <= k < filtered_spec(apps, search).len() ==> {
                &&& apps.contains(#[trigger] filtered_spec(apps, search)[k])
                &&& lowercase(search).len() == 0 || contains_spec(
                    lowercase(filtered_spec(apps, search)[k].name@),
                    lowercase(search),
                )
            },
        forall|k: int|
            0 <= k < apps.len() && (lowercase(search).len() == 0 || contains_spec(
                lowercase(apps[k].name@),
                lowercase(search),
            )) ==> filtered_spec(apps, search).contains(#[trigger] apps[k]),
    decreases apps.len(),
{
    broadcast use vstd::seq_lib::group_filter_ensures;

    let pred = |a: AppEntry| matches_search(a.name@, search);
    let f = filtered_spec(apps, search);
    assert forall|k: int| 0 <= k < f.len() implies apps.contains(#[trigger] f[k]) by {
        lemma_filter_in_source(apps, pred, k);
    }
    assert forall|k: int|
        0 <= k < apps.len() && (lowercase(search).len() == 0 || contains_spec(
            lowercase(apps[k].name@),
            lowercase(search),
        )) implies f.contains(#[trigger] apps[k]) by {
        assert(pred(apps[k]));
    }
}

/// What a filter keeps comes from the filtered sequence.
proof fn lemma_filter_in_source(s: Seq<AppEntry>, pred: spec_fn(AppEntry) -> bool, k: int)
    requires
        0 <= k < s.filter(pred).len(),
    ensures
        s.contains(s.filter(pred)[k]),
    decreases s.len(),
{
    reveal_with_fuel(Seq::filter, 1);
    let sub = s.drop_last().filter(pred);
    if pred(s.last()) && k == sub.len() {
        assert(s[s.len() - 1] == s.filter(pred)[k]);
    } else {
        assert(s.filter(pred)[k] == sub[k]);
        lemma_filter_in_source(s.drop_last(), pred, k);
        let j = choose|j: int| 0 <= j < s.drop_last().len() && s.drop_last()[j] == sub[k];
        assert(s[j] == sub[k]);
    }
}

/// Paths play no part in the search: two app lists that differ only in
/// the apps' paths list the same names.
pub proof fn lemma_filter_ignores_paths(a: Seq<AppEntry>, b: Seq<AppEntry>, search: Seq<char>)
    requires
        app_names(a) == app_names(b),
    ensures
        app_names(filtered_spec(a, search)) == app_names(filtered_spec(b, search)),
    decreases a.len(),
{
    reveal_with_fuel(Seq::filter, 1);
    assert(a.len() == app_names(a).len() && b.len() == app_names(b).len());
    if a.len() > 0 {
        let n = a.len() - 1;
        assert(app_names(a)[n] == app_names(b)[n]);
        assert(a.last().name@ == b.last().name@);
        assert(app_names(a.drop_last()) =~= app_names(a).drop_last());
        assert(app_names(b.drop_last()) =~= app_names(b).drop_last());
        lemma_filter_ignores_paths(a.drop_last(), b.drop_last(), search);
        let fa = filtered_spec(a.drop_last(), search);
        let fb = filtered_spec(b.drop_last(), search);
        if matches_search(a.last().name@, search) {
            assert(app_names(fa.push(a.last())) =~= app_names(fa).push(a.last().name@));
            assert(app_names(fb.push(b.last())) =~= app_names(fb).push(b.last().name@));
        }
    } else {
        assert(b.len() == 0);
    }
}

/// A key press with Ctrl released is never a paste, so every character
/// typed reaches the search box, `v` included.
pub proof fn lemma_plain_keys_never_paste(key: LogicalKey)
    ensures
        !is_paste(false, key),
{
}

/// Every click on the pin reverses the drawer's direction: a drawer heading
/// up turns down and one heading down turns up.
pub proof fn lemma_toggle_reverses(s: DrawerState, now: u64)
    ensures
        heading_up(toggled(s, now)) == !heading_up(s),
        toggled(s, now) is SlidingUp || toggled(s, now) is SlidingDown,
{
}

/// A request for another category always ends with the drawer heading up,
/// and a finished slide keeps the direction it had.
pub proof fn lemma_switch_opens(s: DrawerState, now: u64)
    ensures
        heading_up(switched(s, now)),
        heading_up(settled(switched(s, now))),
        settled(switched(s, now)) == DrawerState::Shown,
{
}

/// A finished slide leaves the drawer at rest, in the direction it had.
pub proof fn lemma_settle_keeps_direction(s: DrawerState)
    ensures
        heading_up(settled(s)) == heading_up(s),
        settled(s) is Hidden || settled(s) is Shown,
        settled(settled(s)) == settled(s),
{
}

/// Editing by key presses and pasting keeps control characters out of the
/// search text.
pub proof fn lemma_search_stays_visible(
    search: Seq<char>,
    key: LogicalKey,
    text: Option<Seq<char>>,
    pasted: Seq<char>,
)
    requires
        no_controls(search),
    ensures
        no_controls(edited_search(search, key, text)),
        no_controls(search + visible_chars(pasted)),
{
    broadcast use vstd::seq_lib::group_filter_ensures;

    assert forall|t: Seq<char>| no_controls(#[trigger] (search + visible_chars(t))) by {
        let v = visible_chars(t);
        let u = search + v;
        assert forall|i: int| 0 <= i < u.len() implies !is_control_spec(#[trigger] u[i]) by {
            if i >= search.len() {
                assert(u[i] == v[i - search.len()]);
            }
        }
    }
    let e = edited_search(search, key, text);
    match key {
        LogicalKey::Backspace => {
            assert forall|i: int| 0 <= i < e.len() implies !is_control_spec(#[trigger] e[i]) by {
                assert(e[i] == search[i]);
            }
        },
        LogicalKey::Escape => {},
        _ => {
            match text {
                Some(t) => {
                    assert(no_controls(search + visible_chars(t)));
                },
                None => {},
            }
        },
    }
}

/// Whether two optional category names name the same drawer.
pub fn same_category(a: &Option<String>, b: &Option<String>) -> (r: bool)
    ensures
        r == (opt_string_view(*a) == opt_string_view(*b)),
{
    match (a, b) {
        (Some(x), Some(y)) => *x == *y,
        (None, None) => true,
        _ => false,
    }
}

impl Drawer {
    /// A hidden drawer for `category`, listing `config`'s apps.
    pub fn new(category: Option<String>, config: Config) -> (r: Drawer)
        ensures
            r.state == DrawerState::Hidden,
            r.active_category == category,
            r.search@.len() == 0,
            r.hovered == Hovered::Nothing,
            r.config == config,
    {
        Drawer {
            state: DrawerState::Hidden,
            active_category: category,
            search: String::new(),
            hovered: Hovered::Nothing,
            config,
        }
    }

    /// A click on the drawer's pin: starts it sliding the other way.
    /// Returns whether the window has to be placed at its hidden position
    /// and made visible first, which is when it was hidden.
    pub fn toggle_visibility(&mut self, now: u64) -> (show_window: bool)
        ensures
            final(self).state == toggled(old(self).state, now),
            show_window == (old(self).state is Hidden),
            final(self).active_category == old(self).active_category,
            final(self).search == old(self).search,
            final(self).hovered == old(self).hovered,
            final(self).config == old(self).config,
    {
        match self.state {
            DrawerState::Hidden => {
                self.state = DrawerState::SlidingUp { start: now };
                true
            },
            DrawerState::Shown | DrawerState::SlidingUp { .. } => {
                self.state = DrawerState::SlidingDown { start: now };
                false
            },
            DrawerState::SlidingDown { .. } => {
                self.state = DrawerState::SlidingUp { start: now };
                false
            },
        }
    }

    /// A launch asks for `category`: the drawer already showing it toggles,
    /// any other category has to be switched to.
    pub fn request(&mut self, category: &Option<String>, now: u64) -> (r: Request)
        ensures
            opt_string_view(*category) == opt_string_view(old(self).active_category) ==> {
                &&& final(self).state == toggled(old(self).state, now)
                &&& r == Request::Toggled { show_window: old(self).state is Hidden }
            },
            opt_string_view(*category) != opt_string_view(old(self).active_category) ==> {
                &&& final(self).state == old(self).state
                &&& r == Request::Switch
            },
            final(self).active_category == old(self).active_category,
            final(self).search == old(self).search,
            final(self).hovered == old(self).hovered,
            final(self).config == old(self).config,
    {
        if same_category(category, &self.active_category) {
            let show_window = self.toggle_visibility(now);
            Request::Toggled { show_window }
        } else {
            Request::Switch
        }
    }

    /// Switches to `category` with its app list `config`: the search and
    /// hover are reset and the drawer heads up. Returns whether the window
    /// has to be placed at its hidden position and made visible first.
    pub fn switch_to(&mut self, category: Option<String>, config: Config, now: u64) -> (show_window:
        bool)
        ensures
            final(self).state == switched(old(self).state, now),
            show_window == (old(self).state is Hidden),
            final(self).active_category == category,
            final(self).search@.len() == 0,
            final(self).hovered == Hovered::Nothing,
            final(self).config == config,
    {
        self.config = config;
        self.search = String::new();
        self.hovered = Hovered::Nothing;
        self.active_category = category;
        match self.state {
            DrawerState::Hidden => self.toggle_visibility(now),
            DrawerState::SlidingDown { .. } => {
                self.state = DrawerState::SlidingUp { start: now };
                false
            },
            _ => false,
        }
    }

    /// The running slide has reached its end.
    pub fn finish_slide(&mut self) -> (r: SlideEnd)
        ensures
            final(self).state == settled(old(self).state),
            r == match old(self).state {
                DrawerState::SlidingUp { .. } => SlideEnd::Shown,
                DrawerState::SlidingDown { .. } => SlideEnd::Hidden,
                _ => SlideEnd::Idle,
            },
            final(self).active_category == old(self).active_category,
            final(self).search == old(self).search,
            final(self).hovered == old(self).hovered,
            final(self).config == old(self).config,
    {
        match self.state {
            DrawerState::SlidingUp { .. } => {
                self.state = DrawerState::Shown;
                SlideEnd::Shown
            },
            DrawerState::SlidingDown { .. } => {
                self.state = DrawerState::Hidden;
                SlideEnd::Hidden
            },
            _ => SlideEnd::Idle,
        }
    }

    /// The window lost the focus: a shown drawer starts to slide down.
    /// Returns whether it did.
    pub fn focus_lost(&mut self, now: u64) -> (r: bool)
        ensures
            r == (old(self).state is Shown),
            final(self).state == if r {
                DrawerState::SlidingDown { start: now }
            } else {
                old(self).state
            },
            final(self).active_category == old(self).active_category,
            final(self).search == old(self).search,
            final(self).hovered == old(self).hovered,
            final(self).config == old(self).config,
    {
        match self.state {
            DrawerState::Shown => {
                self.state = DrawerState::SlidingDown { start: now };
                true
            },
            _ => false,
        }
    }

    /// The apps the grid lists for the current search.
    pub fn filtered_apps(&self) -> (r: Vec<AppEntry>)
        ensures
            r@ == filtered_spec(self.config@, self.search@),
            self.search@.len() == 0 ==> r@ == self.config@,
    {
        filter_apps(self.config.app_list(), self.search.as_str())
    }

    /// A key press in the search box.
    pub fn key_press(&mut self, ctrl_held: bool, press: &KeyPress) -> (r: KeyOutcome)
        ensures
            is_paste(ctrl_held, press.key) ==> r == KeyOutcome::Paste && final(self).search
                == old(self).search,
            !is_paste(ctrl_held, press.key) ==> r == KeyOutcome::Edited && final(self).search@
                == edited_search(old(self).search@, press.key, opt_string_view(press.text)),
            !ctrl_held ==> r == KeyOutcome::Edited,
            final(self).state == old(self).state,
            final(self).active_category == old(self).active_category,
            final(self).hovered == old(self).hovered,
            final(self).config == old(self).config,
    {
        if ctrl_held {
            if let LogicalKey::Character(c) = &press.key {
                if eq_ignore_ascii_case(c.as_str(), "v") {
                    return KeyOutcome::Paste;
                }
            }
        }
        match &press.key {
            LogicalKey::Backspace => {
                let _ = string_pop(&mut self.search);
            },
            LogicalKey::Escape => {
                self.search = String::new();
            },
            _ => {
                if let Some(text) = &press.text {
                    push_visible(&mut self.search, text.as_str());
                }
            },
        }
        KeyOutcome::Edited
    }

    /// Pasted text: its visible characters are appended to the search.
    pub fn paste(&mut self, text: &str)
        ensures
            final(self).search@ == old(self).search@ + visible_chars(text@),
            final(self).state == old(self).state,
            final(self).active_category == old(self).active_category,
            final(self).hovered == old(self).hovered,
            final(self).config == old(self).config,
    {
        push_visible(&mut self.search, text);
    }

    /// A left click on whatever is hovered.
    pub fn left_click(&mut self, now: u64) -> (r: LeftClick)
        ensures
            ({
                let listed = filtered_spec(old(self).config@, old(self).search@);
                match old(self).hovered {
                    Hovered::App(i) => {
                        &&& final(self).state == toggled(old(self).state, now)
                        &&& final(self).config == old(self).config
                        &&& final(self).hovered == old(self).hovered
                        &&& r matches LeftClick::Launch { target, show_window } && show_window == (
                        old(self).state is Hidden) && if i < listed.len() {
                            target matches Some(p) && p@ == listed[i as int].path@
                        } else {
                            target is None
                        }
                    },
                    Hovered::AppRemove(i) => if i < listed.len() {
                        &&& final(self).state == old(self).state
                        &&& final(self).config@ == remove_app_spec(
                            old(self).config@,
                            listed[i as int].path@,
                        )
                        &&& final(self).config.file() == old(self).config.file()
                        &&& final(self).hovered == Hovered::Nothing
                        &&& r matches LeftClick::Removed { path } && path@ == listed[i as int].path@
                    } else {
                        &&& final(self).state == old(self).state
                        &&& final(self).config == old(self).config
                        &&& final(self).hovered == old(self).hovered
                        &&& r is Nothing
                    },
                    Hovered::Add => {
                        &&& final(self).state == old(self).state
                        &&& final(self).config == old(self).config
                        &&& final(self).hovered == old(self).hovered
                        &&& r is PickFile
                    },
                    Hovered::Nothing => {
                        &&& final(self).state == old(self).state
                        &&& final(self).config == old(self).config
                        &&& final(self).hovered == old(self).hovered
                        &&& r is Nothing
                    },
                }
            }),
            final(self).active_category == old(self).active_category,
            final(self).search == old(self).search,
    {
        match self.hovered {
            Hovered::App(i) => {
                let listed = self.filtered_apps();
                let target = if i < listed.len() {
                    Some(listed[i].path.clone())
                } else {
                    None
                };
                let show_window = self.toggle_visibility(now);
                LeftClick::Launch { target, show_window }
            },
            Hovered::AppRemove(i) => {
                let listed = self.filtered_apps();
                if i < listed.len() {
                    let path = listed[i].path.clone();
                    self.config.remove_app(path.as_str());
                    self.hovered = Hovered::Nothing;
                    LeftClick::Removed { path }
                } else {
                    LeftClick::Nothing
                }
            },
            Hovered::Add => LeftClick::PickFile,
            Hovered::Nothing => LeftClick::Nothing,
        }
    }

    /// The listed app a right click offers to remove: the one whose tile or
    /// remove badge is hovered.
    pub fn right_click_target(&self) -> (r: Option<usize>)
        ensures
            r == match self.hovered {
                Hovered::App(i) => Some(i),
                Hovered::AppRemove(i) => Some(i),
                _ => None::<usize>,
            },
    {
        match self.hovered {
            Hovered::App(i) | Hovered::AppRemove(i) => Some(i),
            _ => None,
        }
    }

    /// The user confirmed removing the `i`-th listed app: unpins it and
    /// returns its path, or does nothing when no such app is listed.
    pub fn remove_listed(&mut self, i: usize) -> (r: Option<String>)
        ensures
            ({
                let listed = filtered_spec(old(self).config@, old(self).search@);
                if i < listed.len() {
                    &&& r matches Some(p) && p@ == listed[i as int].path@
                    &&& final(self).config@ == remove_app_spec(old(self).config@, listed[i as int].path@)
                    &&& final(self).config.file() == old(self).config.file()
                } else {
                    r is None && final(self).config == old(self).config
                }
            }),
            final(self).state == old(self).state,
            final(self).active_category == old(self).active_category,
            final(self).search == old(self).search,
            final(self).hovered == old(self).hovered,
    {
        let listed = self.filtered_apps();
        if i < listed.len() {
            let path = listed[i].path.clone();
            self.config.remove_app(path.as_str());
            Some(path)
        } else {
            None
        }
    }

    /// The user picked the executable `path` labelled `name`: pins it
    /// unless already pinned. Returns whether the list must be saved.
    pub fn add_picked(&mut self, name: String, path: String) -> (added: bool)
        ensures
            added == !crate::config::has_path(old(self).config@, path@),
            final(self).config@ == crate::config::add_app_spec(
                old(self).config@,
                AppEntry { name, path },
            ),
            final(self).config.file() == old(self).config.file(),
            final(self).state == old(self).state,
            final(self).active_category == old(self).active_category,
            final(self).search == old(self).search,
            final(self).hovered == old(self).hovered,
    {
        self.config.add_app(name, path)
    }
}

} // verus!
