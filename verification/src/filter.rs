//! Search modes and the filtering of tabs and panes by a query.

use vstd::prelude::*;

use crate::session::{panes_of_tab, PaneInfo, PaneManifest, TabInfo};
use crate::text::{contains_seq, contains_text, lowercase, to_lower};

verus! {

broadcast use vstd::std_specs::hash::group_hash_axioms;

/// Which titles a query is matched against.
#[derive(Debug, Clone, Copy, PartialEq, Eq, Structural)]
pub enum SearchMode {
    /// Tab names and pane titles.
    TabAndPane,
    /// Tab names only; panes are not listed.
    TabOnly,
    /// Pane titles only.
    PaneOnly,
}

impl Default for SearchMode {
    fn default() -> (r: Self)
        ensures
            r == SearchMode::TabAndPane,
    {
        SearchMode::TabAndPane
    }
}

/// The mode that follows `mode` when the user cycles through the modes.
pub open spec fn next_mode(mode: SearchMode) -> SearchMode {
    match mode {
        SearchMode::TabAndPane => SearchMode::TabOnly,
        SearchMode::TabOnly => SearchMode::PaneOnly,
        SearchMode::PaneOnly => SearchMode::TabAndPane,
    }
}

/// The label shown for a mode.
pub open spec fn mode_label(mode: SearchMode) -> Seq<char> {
    match mode {
        SearchMode::TabAndPane => seq!['T', 'A', 'B', ' ', '&', ' ', 'P', 'A', 'N', 'E'],
        SearchMode::TabOnly => seq!['T', 'A', 'B', ' ', 'O', 'N', 'L', 'Y'],
        SearchMode::PaneOnly => seq!['P', 'A', 'N', 'E', ' ', 'O', 'N', 'L', 'Y'],
    }
}

impl SearchMode {
    /// The next mode in the cycle tab-and-pane, tab only, pane only.
    pub fn cycle(&self) -> (r: Self)
        ensures
            r == next_mode(*self),
    {
        match self {
            SearchMode::TabAndPane => SearchMode::TabOnly,
            SearchMode::TabOnly => SearchMode::PaneOnly,
            SearchMode::PaneOnly => SearchMode::TabAndPane,
        }
    }

    /// The mode's label: "TAB & PANE", "TAB ONLY" or "PANE ONLY".
    pub fn label(&self) -> (r: &'static str)
        ensures
            r@ == mode_label(*self),
    {
        match self {
            SearchMode::TabAndPane => {
                proof {
                    reveal_strlit("TAB & PANE");
                }
                "TAB & PANE"
            },
            SearchMode::TabOnly => {
                proof {
                    reveal_strlit("TAB ONLY");
                }
                "TAB ONLY"
            },
            SearchMode::PaneOnly => {
                proof {
                    reveal_strlit("PANE ONLY");
                }
                "PANE ONLY"
            },
        }
    }
}


/// One row of the result list: a tab, or a pane listed under its tab.
pub enum FilteredItem {
    Tab(TabInfo),
    Pane { pane: PaneInfo, tab_position: usize },
}

impl Clone for FilteredItem {
    fn clone(&self) -> (r: Self)
        ensures
            r == *self,
    {
        match self {
            FilteredItem::Tab(tab) => FilteredItem::Tab(tab.clone()),
            FilteredItem::Pane { pane, tab_position } => FilteredItem::Pane {
                pane: pane.clone(),
                tab_position: *tab_position,
            },
        }
    }
}

/// The plugin titles that are never listed: the multiplexer's own bars, the
/// explorer itself and the session manager.
pub open spec fn default_exclusion_names() -> Seq<Seq<char>> {
    seq![
        "tab-bar"@,
        "status-bar"@,
        "zellij-spotlight"@,
        "session-manager"@,
    ]
}

/// The views of a sequence of strings.
pub open spec fn string_views(strings: Seq<String>) -> Seq<Seq<char>> {
    strings.map_values(|s: String| s@)
}

/// The default exclusion list.
pub fn default_exclusions() -> (r: Vec<String>)
    ensures
        string_views(r@) == default_exclusion_names(),
{
    let mut r: Vec<String> = Vec::new();
    r.push(String::from_str("tab-bar"));
    r.push(String::from_str("status-bar"));
    r.push(String::from_str("zellij-spotlight"));
    r.push(String::from_str("session-manager"));
    assert(string_views(r@) =~= default_exclusion_names());
    r
}

/// Some exclusion occurs in the (already lower-cased) title.
pub open spec fn title_excluded(lower_title: Seq<char>, exclusions: Seq<Seq<char>>) -> bool {
    exists|j: int| 0 <= j < exclusions.len() && contains_seq(lower_title, #[trigger] exclusions[j])
}

/// A pane is left out when it is a plugin whose lower-cased title contains
/// one of the exclusions.
pub open spec fn pane_excluded(pane: PaneInfo, exclusions: Seq<Seq<char>>) -> bool {
    pane.is_plugin && title_excluded(lowercase(pane.title@), exclusions)
}

/// A title matches when its lower-cased form contains the lower-cased query.
pub open spec fn title_matches(title: Seq<char>, lower_query: Seq<char>) -> bool {
    contains_seq(lowercase(title), lower_query)
}

/// Whether a pane is listed, given whether its own title and its tab's
/// name match: in the pane modes a pane is listed only when its own title
/// matches (non-matching panes are hidden); tab-only mode lists no panes, and
/// there the tab's match decides.
pub open spec fn pane_shown(mode: SearchMode, pane_matches: bool, tab_matches: bool) -> bool {
    match mode {
        SearchMode::TabAndPane => pane_matches,
        SearchMode::TabOnly => tab_matches,
        SearchMode::PaneOnly => pane_matches,
    }
}

/// Whether a tab is listed, given whether its name matches and whether any
/// of its panes is listed.
pub open spec fn tab_shown(mode: SearchMode, tab_matches: bool, has_panes: bool) -> bool {
    match mode {
        SearchMode::TabAndPane => tab_matches || has_panes,
        SearchMode::TabOnly => tab_matches,
        SearchMode::PaneOnly => has_panes,
    }
}

/// The panes of one tab that are listed, in their order.
pub open spec fn matched_panes(
    panes: Seq<PaneInfo>,
    tab_matches: bool,
    lower_query: Seq<char>,
    mode: SearchMode,
    exclusions: Seq<Seq<char>>,
) -> Seq<PaneInfo>
    decreases panes.len(),
{
    if panes.len() == 0 {
        Seq::empty()
    } else {
        let rest = matched_panes(panes.drop_last(), tab_matches, lower_query, mode, exclusions);
        let pane = panes.last();
        if !pane_excluded(pane, exclusions) && pane_shown(
            mode,
            title_matches(pane.title@, lower_query),
            tab_matches,
        ) {
            rest.push(pane)
        } else {
            rest
        }
    }
}

/// The rows of one tab: nothing, or the tab followed (except in tab-only
/// mode) by its listed panes.
pub open spec fn tab_rows(
    tab: TabInfo,
    panes: Map<usize, Vec<PaneInfo>>,
    lower_query: Seq<char>,
    mode: SearchMode,
    exclusions: Seq<Seq<char>>,
) -> Seq<FilteredItem> {
    let tab_matches = title_matches(tab.name@, lower_query);
    let listed = matched_panes(
        panes_of_tab(panes, tab.position),
        tab_matches,
        lower_query,
        mode,
        exclusions,
    );
    if tab_shown(mode, tab_matches, listed.len() > 0) {
        if mode == SearchMode::TabOnly {
            seq![FilteredItem::Tab(tab)]
        } else {
            seq![FilteredItem::Tab(tab)] + listed.map_values(
                |pane: PaneInfo| FilteredItem::Pane { pane, tab_position: tab.position },
            )
        }
    } else {
        Seq::empty()
    }
}

/// The result list: the rows of each tab, tab after tab.
pub open spec fn filtered(
    tabs: Seq<TabInfo>,
    panes: Map<usize, Vec<PaneInfo>>,
    lower_query: Seq<char>,
    mode: SearchMode,
    exclusions: Seq<Seq<char>>,
) -> Seq<FilteredItem>
    decreases tabs.len(),
{
    if tabs.len() == 0 {
        Seq::empty()
    } else {
        filtered(tabs.drop_last(), panes, lower_query, mode, exclusions) + tab_rows(
            tabs.last(),
            panes,
            lower_query,
            mode,
            exclusions,
        )
    }
}

/// Whether some exclusion occurs in an already lower-cased title.
pub fn title_is_excluded(lower_title: &str, exclusions: &[String]) -> (r: bool)
    ensures
        r == title_excluded(lower_title@, string_views(exclusions@)),
{
    let mut j: usize = 0;
    while j < exclusions.len()
        invariant
            j <= exclusions.len(),
            forall|k: int| 0 <= k < j ==> !contains_seq(lower_title@, #[trigger] string_views(exclusions@)[k]),
        decreases exclusions.len() - j,
    {
        if contains_text(lower_title, exclusions[j].as_str()) {
            assert(string_views(exclusions@)[j as int] == exclusions@[j as int]@);
            return true;
        }
        j += 1;
    }
    false
}

/// Whether a pane is a plugin that the exclusion list hides.
pub fn is_excluded_plugin(pane: &PaneInfo, exclusions: &[String]) -> (r: bool)
    ensures
        r == pane_excluded(*pane, string_views(exclusions@)),
{
    if !pane.is_plugin {
        return false;
    }
    let lower_title = to_lower(pane.title.as_str());
    title_is_excluded(lower_title.as_str(), exclusions)
}

/// Whether a pane is listed under the given mode.
pub fn should_include_pane(mode: &SearchMode, pane_matches: bool, tab_matches: bool) -> (r: bool)
    ensures
        r == pane_shown(*mode, pane_matches, tab_matches),
{
    match mode {
        SearchMode::TabAndPane => pane_matches,
        SearchMode::TabOnly => tab_matches,
        SearchMode::PaneOnly => pane_matches,
    }
}

/// Whether a tab is listed under the given mode.
pub fn should_include_tab(mode: &SearchMode, tab_matches: bool, has_panes: bool) -> (r: bool)
    ensures
        r == tab_shown(*mode, tab_matches, has_panes),
{
    match mode {
        SearchMode::TabAndPane => tab_matches || has_panes,
        SearchMode::TabOnly => tab_matches,
        SearchMode::PaneOnly => has_panes,
    }
}


/// The rows of one tab, given the lower-cased query.
fn rows_of_tab(
    tab: &TabInfo,
    panes: &PaneManifest,
    lower_query: &String,
    mode: &SearchMode,
    exclusions: &[String],
) -> (r: Vec<FilteredItem>)
    ensures
        r@ == tab_rows(*tab, panes.panes@, lower_query@, *mode, string_views(exclusions@)),
{
    let lower_name = to_lower(tab.name.as_str());
    let tab_matches = contains_text(lower_name.as_str(), lower_query.as_str());
    let ghost ex = string_views(exclusions@);
    let ghost all_panes = panes_of_tab(panes.panes@, tab.position);
    let mut listed: Vec<PaneInfo> = Vec::new();
    match panes.panes.get(&tab.position) {
        Some(tab_panes) => {
            assert(tab_panes@ == all_panes);
            let mut j: usize = 0;
            while j < tab_panes.len()
                invariant
                    j <= tab_panes.len(),
                    tab_panes@ == all_panes,
                    ex == string_views(exclusions@),
                    tab_matches == title_matches(tab.name@, lower_query@),
                    listed@ == matched_panes(
                        all_panes.take(j as int),
                        tab_matches,
                        lower_query@,
                        *mode,
                        ex,
                    ),
                decreases tab_panes.len() - j,
            {
                let pane = &tab_panes[j];
                assert(all_panes.take(j + 1).drop_last() =~= all_panes.take(j as int));
                assert(all_panes.take(j + 1).last() == *pane);
                if !is_excluded_plugin(pane, exclusions) {
                    let lower_title = to_lower(pane.title.as_str());
                    let pane_matches = contains_text(lower_title.as_str(), lower_query.as_str());
                    if should_include_pane(mode, pane_matches, tab_matches) {
                        listed.push(pane.clone());
                    }
                }
                j += 1;
            }
            assert(all_panes.take(j as int) =~= all_panes);
        },
        None => {
            assert(listed@ =~= matched_panes(all_panes, tab_matches, lower_query@, *mode, ex));
        },
    }
    let mut rows: Vec<FilteredItem> = Vec::new();
    if should_include_tab(mode, tab_matches, listed.len() > 0) {
        rows.push(FilteredItem::Tab(tab.clone()));
        let ghost head = rows@;
        match mode {
            SearchMode::TabOnly => {},
            _ => {
                let mut k: usize = 0;
                while k < listed.len()
                    invariant
                        k <= listed.len(),
                        rows@ == head + listed@.take(k as int).map_values(
                            |pane: PaneInfo| FilteredItem::Pane { pane, tab_position: tab.position },
                        ),
                    decreases listed.len() - k,
                {
                    rows.push(FilteredItem::Pane { pane: listed[k].clone(), tab_position: tab.position });
                    assert(listed@.take(k + 1) =~= listed@.take(k as int).push(listed@[k as int]));
                    k += 1;
                }
                assert(listed@.take(k as int) =~= listed@);
            },
        }
    }
    rows
}

/// The rows to list for `query` under `mode`: for each tab in order, the tab
/// when it is shown, followed (except in tab-only mode) by its shown panes.
/// Panes are looked up by the tab's position; plugin panes whose titles
/// contain an exclusion are never shown. Matching ignores case.
pub fn compute_filtered(
    tabs: &[TabInfo],
    panes: &PaneManifest,
    query: &str,
    mode: &SearchMode,
    exclusions: &[String],
) -> (r: Vec<FilteredItem>)
    ensures
        r@ == filtered(tabs@, panes.panes@, lowercase(query@), *mode, string_views(exclusions@)),
{
    let lower_query = to_lower(query);
    let ghost ex = string_views(exclusions@);
    let mut results: Vec<FilteredItem> = Vec::new();
    let mut i: usize = 0;
    while i < tabs.len()
        invariant
            i <= tabs.len(),
            ex == string_views(exclusions@),
            lower_query@ == lowercase(query@),
            results@ == filtered(tabs@.take(i as int), panes.panes@, lower_query@, *mode, ex),
        decreases tabs.len() - i,
    {
        let mut rows = rows_of_tab(&tabs[i], panes, &lower_query, mode, exclusions);
        assert(tabs@.take(i + 1).drop_last() =~= tabs@.take(i as int));
        results.append(&mut rows);
        i += 1;
    }
    assert(tabs@.take(i as int) =~= tabs@);
    results
}


/// Whether a row can hold the selection: in tab-only mode the tabs, in the
/// other modes the panes (tab rows are headers there).
pub open spec fn is_selectable(item: FilteredItem, mode: SearchMode) -> bool {
    match item {
        FilteredItem::Tab(_) => mode == SearchMode::TabOnly,
        FilteredItem::Pane { .. } => mode != SearchMode::TabOnly,
    }
}

/// The positions of the selectable rows, in increasing order.
pub open spec fn selectable_positions(items: Seq<FilteredItem>, mode: SearchMode) -> Seq<usize>
    decreases items.len(),
{
    if items.len() == 0 {
        Seq::empty()
    } else {
        let rest = selectable_positions(items.drop_last(), mode);
        if is_selectable(items.last(), mode) {
            rest.push((items.len() - 1) as usize)
        } else {
            rest
        }
    }
}

/// The positions of the rows that can hold the selection under `mode`.
pub fn compute_selectable(results: &[FilteredItem], mode: &SearchMode) -> (r: Vec<usize>)
    ensures
        r@ == selectable_positions(results@, *mode),
{
    let mut indices: Vec<usize> = Vec::new();
    let mut i: usize = 0;
    while i < results.len()
        invariant
            i <= results.len(),
            indices@ == selectable_positions(results@.take(i as int), *mode),
        decreases results.len() - i,
    {
        assert(results@.take(i + 1).drop_last() =~= results@.take(i as int));
        let selectable = match (&results[i], mode) {
            (FilteredItem::Tab(_), SearchMode::TabOnly) => true,
            (FilteredItem::Pane { .. }, SearchMode::TabAndPane) => true,
            (FilteredItem::Pane { .. }, SearchMode::PaneOnly) => true,
            _ => false,
        };
        if selectable {
            indices.push(i);
        }
        i += 1;
    }
    assert(results@.take(i as int) =~= results@);
    indices
}


/// Cycling the mode visits the three modes in turn and comes back after three
/// steps.
pub proof fn lemma_cycle_period(mode: SearchMode)
    ensures
        next_mode(mode) != mode,
        next_mode(next_mode(mode)) != mode,
        next_mode(next_mode(next_mode(mode))) == mode,
{
}

/// The selectable positions are increasing, each is a selectable row of the
/// list, and every selectable row of the list is among them.
pub proof fn lemma_selectable_positions(items: Seq<FilteredItem>, mode: SearchMode)
    requires
        items.len() <= usize::MAX,
    ensures
        forall|i: int, j: int|
            0 <= i < j < selectable_positions(items, mode).len() ==> #[trigger] selectable_positions(
                items,
                mode,
            )[i] < #[trigger] selectable_positions(items, mode)[j],
        forall|i: int|
            0 <= i < selectable_positions(items, mode).len() ==> {
                let k = #[trigger] selectable_positions(items, mode)[i];
                k < items.len() && is_selectable(items[k as int], mode)
            },
        forall|k: int|
            0 <= k < items.len() && is_selectable(#[trigger] items[k], mode)
                ==> selectable_positions(items, mode).contains(k as usize),
    decreases items.len(),
{
    if items.len() > 0 {
        let front = items.drop_last();
        lemma_selectable_positions(front, mode);
        let rest = selectable_positions(front, mode);
        assert forall|k: int|
            0 <= k < items.len() && is_selectable(#[trigger] items[k], mode) implies selectable_positions(
            items,
            mode,
        ).contains(k as usize) by {
            if k < items.len() - 1 {
                assert(front[k] == items[k]);
                let i = choose|i: int| 0 <= i < rest.len() && rest[i] == k as usize;
                assert(selectable_positions(items, mode)[i] == k as usize);
            } else {
                let all = selectable_positions(items, mode);
                assert(all[all.len() - 1] == k as usize);
            }
        }
    }
}

/// Rows in which every pane row comes right after its tab's row or after
/// another pane row of the same tab.
pub open spec fn panes_follow_their_tab(items: Seq<FilteredItem>) -> bool {
    forall|k: int|
        #![trigger items[k]]
        0 <= k < items.len() && items[k] is Pane ==> k > 0 && match items[k - 1] {
            FilteredItem::Tab(tab) => tab.position == items[k]->tab_position,
            FilteredItem::Pane { tab_position, .. } => tab_position == items[k]->tab_position,
        }
}

/// Each listed pane is shown by its own right: it is not an excluded plugin,
/// tab-only mode lists no panes, and its title matches the query.
pub open spec fn panes_are_wanted(
    items: Seq<FilteredItem>,
    lower_query: Seq<char>,
    mode: SearchMode,
    exclusions: Seq<Seq<char>>,
) -> bool {
    forall|k: int|
        #![trigger items[k]]
        0 <= k < items.len() ==> match items[k] {
            FilteredItem::Pane { pane, .. } => {
                &&& !pane_excluded(pane, exclusions)
                &&& mode != SearchMode::TabOnly
                &&& title_matches(pane.title@, lower_query)
            },
            FilteredItem::Tab(_) => true,
        }
}

/// Each listed tab is shown by its own right: its name matches, or (except
/// in tab-only mode) a pane of it is listed right after it; in pane-only mode
/// a pane of it is always listed right after it.
pub open spec fn tabs_are_wanted(items: Seq<FilteredItem>, lower_query: Seq<char>, mode: SearchMode) -> bool {
    forall|k: int|
        #![trigger items[k]]
        0 <= k < items.len() ==> match items[k] {
            FilteredItem::Tab(tab) => {
                let followed = k + 1 < items.len() && items[k + 1] is Pane;
                match mode {
                    SearchMode::TabAndPane => title_matches(tab.name@, lower_query) || followed,
                    SearchMode::TabOnly => title_matches(tab.name@, lower_query),
                    SearchMode::PaneOnly => followed,
                }
            },
            FilteredItem::Pane { .. } => true,
        }
}

proof fn lemma_matched_panes_wanted(
    panes: Seq<PaneInfo>,
    tab_matches: bool,
    lower_query: Seq<char>,
    mode: SearchMode,
    exclusions: Seq<Seq<char>>,
)
    ensures
        forall|i: int|
            0 <= i < matched_panes(panes, tab_matches, lower_query, mode, exclusions).len() ==> {
                let pane = #[trigger] matched_panes(
                    panes,
                    tab_matches,
                    lower_query,
                    mode,
                    exclusions,
                )[i];
                !pane_excluded(pane, exclusions) && pane_shown(
                    mode,
                    title_matches(pane.title@, lower_query),
                    tab_matches,
                )
            },
    decreases panes.len(),
{
    if panes.len() > 0 {
        lemma_matched_panes_wanted(panes.drop_last(), tab_matches, lower_query, mode, exclusions);
        let rest = matched_panes(panes.drop_last(), tab_matches, lower_query, mode, exclusions);
        let all = matched_panes(panes, tab_matches, lower_query, mode, exclusions);
        assert forall|i: int| 0 <= i < all.len() implies #[trigger] all[i] == (if i < rest.len() {
            rest[i]
        } else {
            panes.last()
        }) by {}
    }
}

proof fn lemma_tab_rows_shape(
    tab: TabInfo,
    panes: Map<usize, Vec<PaneInfo>>,
    lower_query: Seq<char>,
    mode: SearchMode,
    exclusions: Seq<Seq<char>>,
)
    ensures
        ({
            let rows = tab_rows(tab, panes, lower_query, mode, exclusions);
            &&& rows.len() > 0 ==> rows[0] == FilteredItem::Tab(tab)
            &&& forall|k: int|
                0 < k < rows.len() ==> (#[trigger] rows[k] is Pane && rows[k]->tab_position
                    == tab.position && pane_shown(
                    mode,
                    title_matches(rows[k]->pane.title@, lower_query),
                    title_matches(tab.name@, lower_query),
                ))
            &&& panes_follow_their_tab(rows)
            &&& panes_are_wanted(rows, lower_query, mode, exclusions)
            &&& tabs_are_wanted(rows, lower_query, mode)
        }),
{
    let tab_matches = title_matches(tab.name@, lower_query);
    let listed = matched_panes(
        panes_of_tab(panes, tab.position),
        tab_matches,
        lower_query,
        mode,
        exclusions,
    );
    lemma_matched_panes_wanted(
        panes_of_tab(panes, tab.position),
        tab_matches,
        lower_query,
        mode,
        exclusions,
    );
    let rows = tab_rows(tab, panes, lower_query, mode, exclusions);
    if tab_shown(mode, tab_matches, listed.len() > 0) && mode != SearchMode::TabOnly {
        let tail = listed.map_values(
            |pane: PaneInfo| FilteredItem::Pane { pane, tab_position: tab.position },
        );
        assert forall|k: int| 0 < k < rows.len() implies (#[trigger] rows[k] is Pane
            && rows[k]->tab_position == tab.position && pane_shown(
            mode,
            title_matches(rows[k]->pane.title@, lower_query),
            title_matches(tab.name@, lower_query),
        )) && rows[k] == tail[k - 1] by {
            assert(rows[k] == tail[k - 1]);
            assert(listed[k - 1] == matched_panes(
                panes_of_tab(panes, tab.position),
                tab_matches,
                lower_query,
                mode,
                exclusions,
            )[k - 1]);
        }
        assert forall|k: int| 0 <= k < rows.len() implies match #[trigger] rows[k] {
            FilteredItem::Pane { pane, .. } => {
                &&& !pane_excluded(pane, exclusions)
                &&& mode != SearchMode::TabOnly
                &&& title_matches(pane.title@, lower_query)
            },
            FilteredItem::Tab(_) => true,
        } by {
            if k > 0 {
                assert(rows[k] == tail[k - 1]);
                assert(listed[k - 1] == matched_panes(
                    panes_of_tab(panes, tab.position),
                    tab_matches,
                    lower_query,
                    mode,
                    exclusions,
                )[k - 1]);
            }
        }
        if listed.len() > 0 {
            assert(rows[1] == tail[0]);
        }
    }
}

/// The listed rows are grouped by tab, and every listed row is wanted: each
/// pane row follows its tab's row (or a pane row of the same tab), panes are
/// never excluded plugins, tab-only mode lists tabs only, every listed pane's
/// title matches (non-matching panes are hidden), and each tab row either
/// matches or (in the pane modes) has a pane row right after it.
pub proof fn lemma_filtered_rows(
    tabs: Seq<TabInfo>,
    panes: Map<usize, Vec<PaneInfo>>,
    lower_query: Seq<char>,
    mode: SearchMode,
    exclusions: Seq<Seq<char>>,
)
    ensures
        panes_follow_their_tab(filtered(tabs, panes, lower_query, mode, exclusions)),
        panes_are_wanted(filtered(tabs, panes, lower_query, mode, exclusions), lower_query, mode, exclusions),
        tabs_are_wanted(filtered(tabs, panes, lower_query, mode, exclusions), lower_query, mode),
    decreases tabs.len(),
{
    if tabs.len() > 0 {
        let front = filtered(tabs.drop_last(), panes, lower_query, mode, exclusions);
        let rows = tab_rows(tabs.last(), panes, lower_query, mode, exclusions);
        let all = filtered(tabs, panes, lower_query, mode, exclusions);
        lemma_filtered_rows(tabs.drop_last(), panes, lower_query, mode, exclusions);
        lemma_tab_rows_shape(tabs.last(), panes, lower_query, mode, exclusions);
        assert(all == front + rows);
        assert forall|k: int| 0 <= k < all.len() implies #[trigger] all[k] == (if k < front.len() {
            front[k]
        } else {
            rows[k - front.len()]
        }) by {}
        assert forall|k: int| 0 <= k < all.len() && #[trigger] all[k] is Pane implies k > 0 && match all[k - 1] {
            FilteredItem::Tab(tab) => tab.position == all[k]->tab_position,
            FilteredItem::Pane { tab_position, .. } => tab_position == all[k]->tab_position,
        } by {
            if k < front.len() {
                assert(front[k] is Pane);
                assert(all[k - 1] == front[k - 1]);
            } else {
                let j = k - front.len();
                assert(rows[j] is Pane);
                assert(all[k - 1] == rows[j - 1]);
            }
        }
        assert forall|k: int| 0 <= k < all.len() implies match #[trigger] all[k] {
            FilteredItem::Tab(tab) => {
                let followed = k + 1 < all.len() && all[k + 1] is Pane;
                match mode {
                    SearchMode::TabAndPane => title_matches(tab.name@, lower_query) || followed,
                    SearchMode::TabOnly => title_matches(tab.name@, lower_query),
                    SearchMode::PaneOnly => followed,
                }
            },
            FilteredItem::Pane { .. } => true,
        } by {
            if k < front.len() {
                assert(front[k] == all[k]);
                if k + 1 < front.len() {
                    assert(front[k + 1] == all[k + 1]);
                }
            } else {
                let j = k - front.len();
                assert(rows[j] == all[k]);
                if j + 1 < rows.len() {
                    assert(rows[j + 1] == all[k + 1]);
                }
            }
        }
        assert forall|k: int| 0 <= k < all.len() implies match #[trigger] all[k] {
            FilteredItem::Pane { pane, .. } => {
                &&& !pane_excluded(pane, exclusions)
                &&& mode != SearchMode::TabOnly
                &&& title_matches(pane.title@, lower_query)
            },
            FilteredItem::Tab(_) => true,
        } by {
            if k < front.len() {
                assert(front[k] == all[k]);
            } else {
                assert(rows[k - front.len()] == all[k]);
            }
        }
    }
}


/// Every pane row is listed under its tab's row, and is listed because its
/// title or that tab's name matches as the mode asks: some earlier row is
/// the tab it belongs to, only pane rows lie between them, and
/// `pane_shown` holds of the pane's and the tab's matches.
pub open spec fn panes_listed_under_their_tab(
    items: Seq<FilteredItem>,
    lower_query: Seq<char>,
    mode: SearchMode,
) -> bool {
    forall|k: int|
        #![trigger items[k]]
        0 <= k < items.len() && items[k] is Pane ==> exists|j: int|
            {
                &&& 0 <= j < k
                &&& #[trigger] items[j] is Tab
                &&& items[j]->Tab_0.position == items[k]->tab_position
                &&& pane_shown(
                    mode,
                    title_matches(items[k]->pane.title@, lower_query),
                    title_matches(items[j]->Tab_0.name@, lower_query),
                )
                &&& forall|m: int| j < m <= k ==> #[trigger] items[m] is Pane
            }
}

/// Each pane row sits under its own tab's row and is there because its title
/// or its tab's name matches as the mode asks.
pub proof fn lemma_panes_listed_under_their_tab(
    tabs: Seq<TabInfo>,
    panes: Map<usize, Vec<PaneInfo>>,
    lower_query: Seq<char>,
    mode: SearchMode,
    exclusions: Seq<Seq<char>>,
)
    ensures
        panes_listed_under_their_tab(
            filtered(tabs, panes, lower_query, mode, exclusions),
            lower_query,
            mode,
        ),
    decreases tabs.len(),
{
    if tabs.len() > 0 {
        let front = filtered(tabs.drop_last(), panes, lower_query, mode, exclusions);
        let rows = tab_rows(tabs.last(), panes, lower_query, mode, exclusions);
        let all = filtered(tabs, panes, lower_query, mode, exclusions);
        lemma_panes_listed_under_their_tab(tabs.drop_last(), panes, lower_query, mode, exclusions);
        lemma_tab_rows_shape(tabs.last(), panes, lower_query, mode, exclusions);
        assert(all == front + rows);
        assert forall|k: int| 0 <= k < all.len() && #[trigger] all[k] is Pane implies exists|j: int|
            {
                &&& 0 <= j < k
                &&& #[trigger] all[j] is Tab
                &&& all[j]->Tab_0.position == all[k]->tab_position
                &&& pane_shown(
                    mode,
                    title_matches(all[k]->pane.title@, lower_query),
                    title_matches(all[j]->Tab_0.name@, lower_query),
                )
                &&& forall|m: int| j < m <= k ==> #[trigger] all[m] is Pane
            } by {
            if k < front.len() {
                assert(front[k] == all[k]);
                let j = choose|j: int|
                    {
                        &&& 0 <= j < k
                        &&& #[trigger] front[j] is Tab
                        &&& front[j]->Tab_0.position == front[k]->tab_position
                        &&& pane_shown(
                            mode,
                            title_matches(front[k]->pane.title@, lower_query),
                            title_matches(front[j]->Tab_0.name@, lower_query),
                        )
                        &&& forall|m: int| j < m <= k ==> #[trigger] front[m] is Pane
                    };
                assert(front[j] == all[j]);
                assert forall|m: int| j < m <= k implies #[trigger] all[m] is Pane by {
                    assert(front[m] == all[m]);
                    assert(front[m] is Pane);
                }
            } else {
                let i = k - front.len();
                let j = front.len() as int;
                assert(rows[i] == all[k]);
                assert(i > 0) by {
                    if i == 0 {
                        assert(rows[0] is Tab);
                    }
                }
                assert(rows[0] == all[j]);
                assert(rows[i] is Pane);
                assert forall|m: int| j < m <= k implies #[trigger] all[m] is Pane by {
                    assert(rows[m - j] == all[m]);
                    assert(rows[m - j] is Pane);
                }
            }
        }
    }
}


/// `idx` picks, in increasing order, positions of `big` that hold the
/// elements of `small`.
pub open spec fn picks<A>(small: Seq<A>, big: Seq<A>, idx: Seq<int>) -> bool {
    &&& idx.len() == small.len()
    &&& forall|i: int| 0 <= i < idx.len() ==> 0 <= #[trigger] idx[i] < big.len()
    &&& forall|i: int, j: int| 0 <= i < j < idx.len() ==> #[trigger] idx[i] < #[trigger] idx[j]
    &&& forall|i: int| 0 <= i < idx.len() ==> small[i] == big[#[trigger] idx[i]]
}

/// `small` is obtained from `big` by leaving out elements.
pub open spec fn subsequence_of<A>(small: Seq<A>, big: Seq<A>) -> bool {
    exists|idx: Seq<int>| picks(small, big, idx)
}

proof fn lemma_subsequence_empty<A>(big: Seq<A>)
    ensures
        subsequence_of(Seq::<A>::empty(), big),
{
    assert(picks(Seq::<A>::empty(), big, Seq::<int>::empty()));
}

proof fn lemma_subsequence_refl<A>(s: Seq<A>)
    ensures
        subsequence_of(s, s),
{
    let idx = Seq::new(s.len(), |i: int| i);
    assert(picks(s, s, idx));
}

proof fn lemma_subsequence_concat<A>(a1: Seq<A>, b1: Seq<A>, a2: Seq<A>, b2: Seq<A>)
    requires
        subsequence_of(a1, b1),
        subsequence_of(a2, b2),
    ensures
        subsequence_of(a1 + a2, b1 + b2),
{
    let i1 = choose|idx: Seq<int>| picks(a1, b1, idx);
    let i2 = choose|idx: Seq<int>| picks(a2, b2, idx);
    let idx = i1 + i2.map_values(|k: int| k + b1.len());
    assert forall|i: int| 0 <= i < idx.len() implies 0 <= #[trigger] idx[i] < (b1 + b2).len() by {
        if i >= i1.len() {
            assert(0 <= i2[i - i1.len()] < b2.len());
        }
    }
    assert forall|i: int, j: int| 0 <= i < j < idx.len() implies #[trigger] idx[i] < #[trigger] idx[j] by {
        if j < i1.len() {
        } else if i < i1.len() {
            assert(0 <= i2[j - i1.len()]);
        } else {
            assert(i2[i - i1.len()] < i2[j - i1.len()]);
        }
    }
    assert forall|i: int| 0 <= i < idx.len() implies (a1 + a2)[i] == (b1 + b2)[#[trigger] idx[i]] by {
        if i >= i1.len() {
            assert(0 <= i2[i - i1.len()] < b2.len());
            assert(a2[i - i1.len()] == b2[i2[i - i1.len()]]);
        }
    }
    assert(picks(a1 + a2, b1 + b2, idx));
}

proof fn lemma_subsequence_shorter<A>(small: Seq<A>, big: Seq<A>)
    requires
        subsequence_of(small, big),
    ensures
        small.len() > 0 ==> big.len() > 0,
{
    if small.len() > 0 {
        let idx = choose|idx: Seq<int>| picks(small, big, idx);
        assert(0 <= idx[0] < big.len());
    }
}

proof fn lemma_subsequence_map(small: Seq<PaneInfo>, big: Seq<PaneInfo>, position: usize)
    requires
        subsequence_of(small, big),
    ensures
        subsequence_of(
            small.map_values(|pane: PaneInfo| FilteredItem::Pane { pane, tab_position: position }),
            big.map_values(|pane: PaneInfo| FilteredItem::Pane { pane, tab_position: position }),
        ),
{
    let idx = choose|idx: Seq<int>| picks(small, big, idx);
    let f = |pane: PaneInfo| FilteredItem::Pane { pane, tab_position: position };
    assert forall|i: int| 0 <= i < idx.len() implies small.map_values(f)[i] == big.map_values(
        f,
    )[#[trigger] idx[i]] by {
        assert(small[i] == big[idx[i]]);
    }
    assert(picks(small.map_values(f), big.map_values(f), idx));
}

/// Substring containment is transitive.
proof fn lemma_contains_trans(a: Seq<char>, b: Seq<char>, c: Seq<char>)
    requires
        contains_seq(a, b),
        contains_seq(b, c),
    ensures
        contains_seq(a, c),
{
    let i = choose|i: int| 0 <= i <= a.len() - b.len() && #[trigger] a.subrange(i, i + b.len()) == b;
    let j = choose|j: int| 0 <= j <= b.len() - c.len() && #[trigger] b.subrange(j, j + c.len()) == c;
    assert(a.subrange(i + j, i + j + c.len()) =~= c) by {
        assert forall|k: int| 0 <= k < c.len() implies a.subrange(i + j, i + j + c.len())[k] == c[k] by {
            assert(a.subrange(i, i + b.len())[j + k] == b[j + k]);
            assert(b.subrange(j, j + c.len())[k] == c[k]);
        }
    }
}

proof fn lemma_matched_panes_narrower(
    panes: Seq<PaneInfo>,
    wide_tab: bool,
    narrow_tab: bool,
    wide_query: Seq<char>,
    narrow_query: Seq<char>,
    mode: SearchMode,
    exclusions: Seq<Seq<char>>,
)
    requires
        contains_seq(narrow_query, wide_query),
        narrow_tab ==> wide_tab,
    ensures
        subsequence_of(
            matched_panes(panes, narrow_tab, narrow_query, mode, exclusions),
            matched_panes(panes, wide_tab, wide_query, mode, exclusions),
        ),
    decreases panes.len(),
{
    if panes.len() == 0 {
        lemma_subsequence_empty(matched_panes(panes, wide_tab, wide_query, mode, exclusions));
    } else {
        let front = panes.drop_last();
        let pane = panes.last();
        lemma_matched_panes_narrower(
            front,
            wide_tab,
            narrow_tab,
            wide_query,
            narrow_query,
            mode,
            exclusions,
        );
        let narrow_rest = matched_panes(front, narrow_tab, narrow_query, mode, exclusions);
        let wide_rest = matched_panes(front, wide_tab, wide_query, mode, exclusions);
        if title_matches(pane.title@, narrow_query) {
            lemma_contains_trans(lowercase(pane.title@), narrow_query, wide_query);
        }
        lemma_subsequence_refl(seq![pane]);
        lemma_subsequence_empty(seq![pane]);
        assert(narrow_rest.push(pane) == narrow_rest + seq![pane]);
        assert(wide_rest.push(pane) == wide_rest + seq![pane]);
        assert(narrow_rest == narrow_rest + Seq::<PaneInfo>::empty());
        lemma_subsequence_concat(narrow_rest, wide_rest, seq![pane], seq![pane]);
        lemma_subsequence_concat(narrow_rest, wide_rest, Seq::<PaneInfo>::empty(), seq![pane]);
    }
}

proof fn lemma_tab_rows_narrower(
    tab: TabInfo,
    panes: Map<usize, Vec<PaneInfo>>,
    wide_query: Seq<char>,
    narrow_query: Seq<char>,
    mode: SearchMode,
    exclusions: Seq<Seq<char>>,
)
    requires
        contains_seq(narrow_query, wide_query),
    ensures
        subsequence_of(
            tab_rows(tab, panes, narrow_query, mode, exclusions),
            tab_rows(tab, panes, wide_query, mode, exclusions),
        ),
{
    let wide_tab = title_matches(tab.name@, wide_query);
    let narrow_tab = title_matches(tab.name@, narrow_query);
    if narrow_tab {
        lemma_contains_trans(lowercase(tab.name@), narrow_query, wide_query);
    }
    let all = panes_of_tab(panes, tab.position);
    let narrow_listed = matched_panes(all, narrow_tab, narrow_query, mode, exclusions);
    let wide_listed = matched_panes(all, wide_tab, wide_query, mode, exclusions);
    lemma_matched_panes_narrower(all, wide_tab, narrow_tab, wide_query, narrow_query, mode, exclusions);
    lemma_subsequence_shorter(narrow_listed, wide_listed);
    let narrow_rows = tab_rows(tab, panes, narrow_query, mode, exclusions);
    let wide_rows = tab_rows(tab, panes, wide_query, mode, exclusions);
    let head = seq![FilteredItem::Tab(tab)];
    lemma_subsequence_refl(head);
    if tab_shown(mode, narrow_tab, narrow_listed.len() > 0) {
        if mode == SearchMode::TabOnly {
            lemma_subsequence_refl(narrow_rows);
        } else {
            lemma_subsequence_map(narrow_listed, wide_listed, tab.position);
            lemma_subsequence_concat(
                head,
                head,
                narrow_listed.map_values(
                    |pane: PaneInfo| FilteredItem::Pane { pane, tab_position: tab.position },
                ),
                wide_listed.map_values(
                    |pane: PaneInfo| FilteredItem::Pane { pane, tab_position: tab.position },
                ),
            );
        }
    } else {
        lemma_subsequence_empty(wide_rows);
    }
}

/// A narrower query never adds a row: when the new lower-cased query
/// contains the old one (as when more characters are typed), the new result
/// is the old one with some rows left out.
pub proof fn lemma_narrower_query_drops_rows(
    tabs: Seq<TabInfo>,
    panes: Map<usize, Vec<PaneInfo>>,
    wide_query: Seq<char>,
    narrow_query: Seq<char>,
    mode: SearchMode,
    exclusions: Seq<Seq<char>>,
)
    requires
        contains_seq(narrow_query, wide_query),
    ensures
        subsequence_of(
            filtered(tabs, panes, narrow_query, mode, exclusions),
            filtered(tabs, panes, wide_query, mode, exclusions),
        ),
    decreases tabs.len(),
{
    if tabs.len() == 0 {
        lemma_subsequence_empty(Seq::<FilteredItem>::empty());
    } else {
        lemma_narrower_query_drops_rows(
            tabs.drop_last(),
            panes,
            wide_query,
            narrow_query,
            mode,
            exclusions,
        );
        lemma_tab_rows_narrower(tabs.last(), panes, wide_query, narrow_query, mode, exclusions);
        lemma_subsequence_concat(
            filtered(tabs.drop_last(), panes, narrow_query, mode, exclusions),
            filtered(tabs.drop_last(), panes, wide_query, mode, exclusions),
            tab_rows(tabs.last(), panes, narrow_query, mode, exclusions),
            tab_rows(tabs.last(), panes, wide_query, mode, exclusions),
        );
    }
}


proof fn lemma_matched_panes_pane_modes(
    panes: Seq<PaneInfo>,
    tab_matches: bool,
    lower_query: Seq<char>,
    exclusions: Seq<Seq<char>>,
)
    ensures
        matched_panes(panes, tab_matches, lower_query, SearchMode::TabAndPane, exclusions)
            == matched_panes(panes, tab_matches, lower_query, SearchMode::PaneOnly, exclusions),
    decreases panes.len(),
{
    if panes.len() > 0 {
        lemma_matched_panes_pane_modes(panes.drop_last(), tab_matches, lower_query, exclusions);
    }
}

proof fn lemma_tab_rows_modes(
    tab: TabInfo,
    panes: Map<usize, Vec<PaneInfo>>,
    lower_query: Seq<char>,
    exclusions: Seq<Seq<char>>,
)
    ensures
        ({
            let both = tab_rows(tab, panes, lower_query, SearchMode::TabAndPane, exclusions);
            let tabs_only = tab_rows(tab, panes, lower_query, SearchMode::TabOnly, exclusions);
            let panes_only = tab_rows(tab, panes, lower_query, SearchMode::PaneOnly, exclusions);
            &&& subsequence_of(tabs_only, both)
            &&& subsequence_of(panes_only, both)
            &&& both.len() > 0 ==> (tabs_only.len() > 0 && tabs_only[0] == both[0]) || (
            panes_only.len() > 0 && panes_only[0] == both[0])
        }),
{
    let tm = title_matches(tab.name@, lower_query);
    let all = panes_of_tab(panes, tab.position);
    lemma_matched_panes_pane_modes(all, tm, lower_query, exclusions);
    let listed = matched_panes(all, tm, lower_query, SearchMode::TabAndPane, exclusions);
    let both = tab_rows(tab, panes, lower_query, SearchMode::TabAndPane, exclusions);
    let tabs_only = tab_rows(tab, panes, lower_query, SearchMode::TabOnly, exclusions);
    let panes_only = tab_rows(tab, panes, lower_query, SearchMode::PaneOnly, exclusions);
    let head = seq![FilteredItem::Tab(tab)];
    let tail = listed.map_values(
        |pane: PaneInfo| FilteredItem::Pane { pane, tab_position: tab.position },
    );
    if tm {
        lemma_subsequence_refl(head);
        lemma_subsequence_empty(tail);
        assert(head + Seq::<FilteredItem>::empty() == head);
        lemma_subsequence_concat(head, head, Seq::<FilteredItem>::empty(), tail);
    } else {
        lemma_subsequence_empty(both);
    }
    if listed.len() > 0 {
        lemma_subsequence_refl(both);
    } else {
        lemma_subsequence_empty(both);
    }
}

/// Tab-and-pane mode lists the union of the two single modes: the tab-only
/// and the pane-only results are each the tab-and-pane result with some rows
/// left out, and every tab listed in tab-and-pane mode is listed in one of
/// them.
pub proof fn lemma_modes_union(
    tabs: Seq<TabInfo>,
    panes: Map<usize, Vec<PaneInfo>>,
    lower_query: Seq<char>,
    exclusions: Seq<Seq<char>>,
)
    ensures
        ({
            let both = filtered(tabs, panes, lower_query, SearchMode::TabAndPane, exclusions);
            let tabs_only = filtered(tabs, panes, lower_query, SearchMode::TabOnly, exclusions);
            let panes_only = filtered(tabs, panes, lower_query, SearchMode::PaneOnly, exclusions);
            &&& subsequence_of(tabs_only, both)
            &&& subsequence_of(panes_only, both)
            &&& forall|k: int|
                0 <= k < both.len() && #[trigger] both[k] is Tab ==> tabs_only.contains(both[k])
                    || panes_only.contains(both[k])
        }),
    decreases tabs.len(),
{
    let both = filtered(tabs, panes, lower_query, SearchMode::TabAndPane, exclusions);
    let tabs_only = filtered(tabs, panes, lower_query, SearchMode::TabOnly, exclusions);
    let panes_only = filtered(tabs, panes, lower_query, SearchMode::PaneOnly, exclusions);
    if tabs.len() == 0 {
        lemma_subsequence_empty(both);
    } else {
        let front = tabs.drop_last();
        let tab = tabs.last();
        lemma_modes_union(front, panes, lower_query, exclusions);
        lemma_tab_rows_modes(tab, panes, lower_query, exclusions);
        let fb = filtered(front, panes, lower_query, SearchMode::TabAndPane, exclusions);
        let ft = filtered(front, panes, lower_query, SearchMode::TabOnly, exclusions);
        let fp = filtered(front, panes, lower_query, SearchMode::PaneOnly, exclusions);
        let rb = tab_rows(tab, panes, lower_query, SearchMode::TabAndPane, exclusions);
        let rt = tab_rows(tab, panes, lower_query, SearchMode::TabOnly, exclusions);
        let rp = tab_rows(tab, panes, lower_query, SearchMode::PaneOnly, exclusions);
        lemma_subsequence_concat(ft, fb, rt, rb);
        lemma_subsequence_concat(fp, fb, rp, rb);
        lemma_tab_rows_shape(tab, panes, lower_query, SearchMode::TabAndPane, exclusions);
        assert(both == fb + rb);
        assert(tabs_only == ft + rt);
        assert(panes_only == fp + rp);
        assert forall|k: int| 0 <= k < both.len() && #[trigger] both[k] is Tab implies tabs_only.contains(
            both[k],
        ) || panes_only.contains(both[k]) by {
            if k < fb.len() {
                assert(fb[k] == both[k]);
                if ft.contains(fb[k]) {
                    let i = choose|i: int| 0 <= i < ft.len() && ft[i] == fb[k];
                    assert(tabs_only[i] == ft[i]);
                } else {
                    let i = choose|i: int| 0 <= i < fp.len() && fp[i] == fb[k];
                    assert(panes_only[i] == fp[i]);
                }
            } else {
                let j = k - fb.len();
                assert(rb[j] == both[k]);
                assert(j == 0) by {
                    if j > 0 {
                        assert(rb[j] is Pane);
                    }
                }
                if rt.len() > 0 && rt[0] == rb[0] {
                    assert(tabs_only[ft.len() as int] == rt[0]);
                } else {
                    assert(panes_only[fp.len() as int] == rp[0]);
                }
            }
        }
    }
}


/// `part` occurs in `whole` at position `at`.
pub open spec fn occurs_at(whole: Seq<char>, part: Seq<char>, at: int) -> bool {
    0 <= at && at + part.len() <= whole.len() && forall|m: int|
        0 <= m < part.len() ==> #[trigger] whole[at + m] == part[m]
}

/// A pane is hidden as an exclusion exactly when it is a plugin and some
/// exclusion occurs anywhere in its lower-cased title (not only at its end or
/// start); and no listed pane is such a plugin.
pub proof fn lemma_exclusion_is_containment(
    pane: PaneInfo,
    exclusions: Seq<Seq<char>>,
    tabs: Seq<TabInfo>,
    panes: Map<usize, Vec<PaneInfo>>,
    lower_query: Seq<char>,
    mode: SearchMode,
)
    ensures
        pane_excluded(pane, exclusions) <==> pane.is_plugin && exists|j: int, at: int|
            0 <= j < exclusions.len() && #[trigger] occurs_at(
                lowercase(pane.title@),
                exclusions[j],
                at,
            ),
        forall|k: int|
            0 <= k < filtered(tabs, panes, lower_query, mode, exclusions).len() ==> match #[trigger] filtered(
                tabs,
                panes,
                lower_query,
                mode,
                exclusions,
            )[k] {
                FilteredItem::Pane { pane: listed, .. } => !(listed.is_plugin && exists|j: int, at: int|
                    0 <= j < exclusions.len() && #[trigger] occurs_at(
                        lowercase(listed.title@),
                        exclusions[j],
                        at,
                    )),
                FilteredItem::Tab(_) => true,
            },
{
    assert forall|t: Seq<char>| #[trigger] title_excluded(t, exclusions) <==> exists|j: int, at: int|
        0 <= j < exclusions.len() && #[trigger] occurs_at(t, exclusions[j], at) by {
        if title_excluded(t, exclusions) {
            let j = choose|j: int| 0 <= j < exclusions.len() && contains_seq(t, #[trigger] exclusions[j]);
            let at = choose|at: int|
                0 <= at <= t.len() - exclusions[j].len() && #[trigger] t.subrange(
                    at,
                    at + exclusions[j].len(),
                ) == exclusions[j];
            assert forall|m: int| 0 <= m < exclusions[j].len() implies #[trigger] t[at + m]
                == exclusions[j][m] by {
                assert(t.subrange(at, at + exclusions[j].len())[m] == exclusions[j][m]);
            }
            assert(occurs_at(t, exclusions[j], at));
        }
        if exists|j: int, at: int| 0 <= j < exclusions.len() && #[trigger] occurs_at(t, exclusions[j], at) {
            let (j, at) = choose|j: int, at: int|
                0 <= j < exclusions.len() && #[trigger] occurs_at(t, exclusions[j], at);
            assert forall|m: int| 0 <= m < exclusions[j].len() implies t.subrange(
                at,
                at + exclusions[j].len(),
            )[m] == exclusions[j][m] by {
                assert(t[at + m] == exclusions[j][m]);
            }
            assert(t.subrange(at, at + exclusions[j].len()) =~= exclusions[j]);
            assert(contains_seq(t, exclusions[j]));
        }
    }
    lemma_filtered_rows(tabs, panes, lower_query, mode, exclusions);
    let rows = filtered(tabs, panes, lower_query, mode, exclusions);
    assert forall|k: int| 0 <= k < rows.len() implies match #[trigger] rows[k] {
        FilteredItem::Pane { pane: listed, .. } => !(listed.is_plugin && exists|j: int, at: int|
            0 <= j < exclusions.len() && #[trigger] occurs_at(lowercase(listed.title@), exclusions[j], at)),
        FilteredItem::Tab(_) => true,
    } by {
        if let FilteredItem::Pane { pane: listed, .. } = rows[k] {
            assert(!pane_excluded(listed, exclusions));
            assert(title_excluded(lowercase(listed.title@), exclusions) <==> exists|j: int, at: int|
                0 <= j < exclusions.len() && #[trigger] occurs_at(
                    lowercase(listed.title@),
                    exclusions[j],
                    at,
                ));
        }
    }
}

} // verus!
