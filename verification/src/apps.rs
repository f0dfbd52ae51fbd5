//! The launcher's applications: desktop entries, the application list in
//! name order, fuzzy search over it, and the daemon's answers to requests.
use vstd::prelude::*;
use fuzzy_matcher::FuzzyMatcher;
use crate::order::{
    lemma_text_order, sort_by_key, stable_sort, text_lt, text_lt_exec, views_of, SortKey,
};
use crate::text::{
    append, append_str, chars_of, eq_str, joined, lines, lines_of, lowercase, lowercase_of,
    seq_eq, split, split_on, split_once, split_once_exec, split_ws, string_from, string_of,
    string_views, trim, trimmed, views, words,
};

verus! {

/// An application entry
#[derive(Debug, Clone)]
pub struct App {
    pub name: String,
    pub generic_name: Option<String>,
    pub command: String,
    pub icon: Option<String>,
    pub keywords: Vec<String>,
    pub terminal: bool,
    pub desktop_file: String,
}

/// What an application entry holds.
pub struct AppView {
    pub name: Seq<char>,
    pub generic_name: Option<Seq<char>>,
    pub command: Seq<char>,
    pub icon: Option<Seq<char>>,
    pub keywords: Seq<Seq<char>>,
    pub terminal: bool,
    pub desktop_file: Seq<char>,
}

/// The view of an optional string.
pub open spec fn opt_t(o: Option<String>) -> Option<Seq<char>> {
    match o {
        Some(s) => Some(s@),
        None => None,
    }
}

impl View for App {
    type V = AppView;

    open spec fn view(&self) -> AppView {
        AppView {
            name: self.name@,
            generic_name: opt_t(self.generic_name),
            command: self.command@,
            icon: opt_t(self.icon),
            keywords: string_views(self.keywords@),
            terminal: self.terminal,
            desktop_file: self.desktop_file@,
        }
    }
}

impl SortKey for App {
    /// Applications go by name, letter case aside.
    open spec fn precedes(a: AppView, b: AppView) -> bool {
        text_lt(lowercase(a.name), lowercase(b.name))
    }

    fn precedes_exec(&self, other: &Self) -> (r: bool) {
        let a = lowercase_of(chars_of(self.name.as_str()).as_slice());
        let b = lowercase_of(chars_of(other.name.as_str()).as_slice());
        text_lt_exec(a.as_slice(), b.as_slice())
    }

    proof fn lemma_strict_weak_order(a: AppView, b: AppView, c: AppView) {
        lemma_text_order(lowercase(a.name), lowercase(b.name), lowercase(c.name));
    }
}

/// Application info sent over IPC
#[derive(Debug, Clone)]
pub struct AppInfo {
    pub name: String,
    pub generic_name: Option<String>,
    pub command: String,
    pub icon: Option<String>,
    pub terminal: bool,
    pub desktop_file: String,
}

/// What the information of an application holds.
pub struct AppInfoView {
    pub name: Seq<char>,
    pub generic_name: Option<Seq<char>>,
    pub command: Seq<char>,
    pub icon: Option<Seq<char>>,
    pub terminal: bool,
    pub desktop_file: Seq<char>,
}

impl View for AppInfo {
    type V = AppInfoView;

    open spec fn view(&self) -> AppInfoView {
        AppInfoView {
            name: self.name@,
            generic_name: opt_t(self.generic_name),
            command: self.command@,
            icon: opt_t(self.icon),
            terminal: self.terminal,
            desktop_file: self.desktop_file@,
        }
    }
}

/// The information that the launcher shows of an application.
pub open spec fn info_of(a: AppView) -> AppInfoView {
    AppInfoView {
        name: a.name,
        generic_name: a.generic_name,
        command: a.command,
        icon: a.icon,
        terminal: a.terminal,
        desktop_file: a.desktop_file,
    }
}

/// Request from client to daemon
#[derive(Debug, Clone)]
pub enum Request {
    /// Search for applications
    Search { query: String },
    /// Get all applications (empty query)
    List,
    /// Ping to check daemon status
    Ping,
}

/// Response from daemon to client
#[derive(Debug, Clone)]
pub enum Response {
    /// Search results
    Results { apps: Vec<AppInfo> },
    /// Pong response
    Pong,
    /// Error response
    Error { message: String },
}

/// What a request holds.
pub enum RequestView {
    Search(Seq<char>),
    List,
    Ping,
}

impl View for Request {
    type V = RequestView;

    open spec fn view(&self) -> RequestView {
        match self {
            Request::Search { query } => RequestView::Search(query@),
            Request::List => RequestView::List,
            Request::Ping => RequestView::Ping,
        }
    }
}

/// What a response holds.
pub enum ResponseView {
    Results(Seq<AppInfoView>),
    Pong,
    Error(Seq<char>),
}

impl View for Response {
    type V = ResponseView;

    open spec fn view(&self) -> ResponseView {
        match self {
            Response::Results { apps } => ResponseView::Results(info_views(apps@)),
            Response::Pong => ResponseView::Pong,
            Response::Error { message } => ResponseView::Error(message@),
        }
    }
}

/// The request that a client's search for `query` sends: a listing when the
/// query is empty.
pub open spec fn request_for(query: Seq<char>) -> RequestView {
    if query.len() == 0 {
        RequestView::List
    } else {
        RequestView::Search(query)
    }
}

/// How many applications a listing gives: at most a hundred.
pub open spec fn listed(n: nat) -> int {
    if n < 100 {
        n as int
    } else {
        100
    }
}

/// The daemon's answer to a request over the applications `apps`: for a
/// search, the information of the applications at the positions it ranks
/// (all of them for an empty query); for a listing, that of the first
/// hundred.
pub open spec fn answer(apps: Seq<AppView>, req: RequestView) -> ResponseView {
    match req {
        RequestView::Search(q) => ResponseView::Results(
            (if q.len() == 0 {
                all_positions(apps.len())
            } else {
                ranked(apps.map_values(|a: AppView| app_score(a, q)))
            }).map_values(|k: usize| info_of(apps[k as int])),
        ),
        RequestView::List => ResponseView::Results(
            apps.take(listed(apps.len())).map_values(|a: AppView| info_of(a)),
        ),
        RequestView::Ping => ResponseView::Pong,
    }
}

/// What a client's search makes of the daemon's answer.
pub open spec fn outcome_of(resp: ResponseView) -> Result<Seq<AppInfoView>, Seq<char>> {
    match resp {
        ResponseView::Results(apps) => Ok(apps),
        ResponseView::Error(message) => Err("Daemon error: "@ + message),
        ResponseView::Pong => Err("Unexpected response"@),
    }
}

/// List of discovered applications
#[derive(Debug, Clone)]
pub struct AppList {
    apps: Vec<App>,
}

/// The attributes read so far from a desktop file, and whether the lines
/// are in its `[Desktop Entry]` section.
pub open spec fn desktop_scan(ls: Seq<Seq<char>>) -> (bool, Seq<(Seq<char>, Seq<char>)>)
    decreases ls.len(),
{
    if ls.len() == 0 {
        (false, Seq::<(Seq<char>, Seq<char>)>::empty())
    } else {
        let prev = desktop_scan(ls.drop_last());
        let t = trim(ls.last());
        if t.len() > 0 && t[0] == '[' && t.last() == ']' {
            (t == "[Desktop Entry]"@, prev.1)
        } else if prev.0 {
            match split_once(t, '=') {
                Some((k, v)) => (true, prev.1.push((trim(k), trim(v)))),
                None => prev,
            }
        } else {
            prev
        }
    }
}

/// The value of the last attribute `key`.
pub open spec fn attr(a: Seq<(Seq<char>, Seq<char>)>, key: Seq<char>) -> Option<Seq<char>>
    decreases a.len(),
{
    if a.len() == 0 {
        None
    } else if a.last().0 == key {
        Some(a.last().1)
    } else {
        attr(a.drop_last(), key)
    }
}

/// The words of `w` that do not begin with `%`, in order.
pub open spec fn without_field_codes(w: Seq<Seq<char>>) -> Seq<Seq<char>>
    decreases w.len(),
{
    if w.len() == 0 {
        w
    } else if w.last().len() > 0 && w.last()[0] == '%' {
        without_field_codes(w.drop_last())
    } else {
        without_field_codes(w.drop_last()).push(w.last())
    }
}

/// The non-empty pieces of `s` between semicolons.
pub open spec fn keyword_list(p: Seq<Seq<char>>) -> Seq<Seq<char>>
    decreases p.len(),
{
    if p.len() == 0 {
        p
    } else if p.last().len() > 0 {
        keyword_list(p.drop_last()).push(p.last())
    } else {
        keyword_list(p.drop_last())
    }
}

/// The application that a desktop file describes: none when it is hidden
/// or lacks a name or a command; the command without its field codes.
pub open spec fn desktop_app(content: Seq<char>, path: Seq<char>) -> Option<AppView> {
    let a = desktop_scan(lines(content)).1;
    if attr(a, "NoDisplay"@) == Some("true"@) || attr(a, "Hidden"@) == Some("true"@) {
        None
    } else {
        match (attr(a, "Name"@), attr(a, "Exec"@)) {
            (Some(name), Some(cmd)) => Some(
                AppView {
                    name,
                    generic_name: attr(a, "GenericName"@),
                    command: joined(without_field_codes(words(cmd))),
                    icon: attr(a, "Icon"@),
                    keywords: match attr(a, "Keywords"@) {
                        Some(k) => keyword_list(split(k, ';')),
                        None => Seq::<Seq<char>>::empty(),
                    },
                    terminal: attr(a, "Terminal"@) == Some("true"@),
                    desktop_file: path,
                },
            ),
            _ => None,
        }
    }
}

/// The entries of `s` without those that follow one of the same name.
pub open spec fn dedup_names(s: Seq<AppView>) -> Seq<AppView>
    decreases s.len(),
{
    if s.len() == 0 {
        s
    } else {
        let p = dedup_names(s.drop_last());
        if p.len() > 0 && p.last().name == s.last().name {
            p
        } else {
            p.push(s.last())
        }
    }
}

/// What the fuzzy matcher of `fuzzy-matcher` (`SkimMatcherV2` with its
/// default settings) scores `choice` against `pattern`; `None` when it does
/// not match.
pub uninterp spec fn skim_score(choice: Seq<char>, pattern: Seq<char>) -> Option<i64>;

/// `SkimMatcherV2::fuzzy_match` with the default settings.
#[verifier::external_body]
fn fuzzy_match(choice: &str, pattern: &str) -> (r: Option<i64>)
    ensures
        r == skim_score(choice@, pattern@),
{
    fuzzy_matcher::skim::SkimMatcherV2::default().fuzzy_match(choice, pattern)
}

/// The larger of two optional scores.
pub open spec fn opt_max(a: Option<i64>, b: Option<i64>) -> Option<i64> {
    match (a, b) {
        (Some(x), Some(y)) => Some(if x >= y { x } else { y }),
        (Some(x), None) => Some(x),
        (None, Some(y)) => Some(y),
        (None, None) => None,
    }
}

/// The best score of the keywords against `query`.
pub open spec fn keyword_score(k: Seq<Seq<char>>, query: Seq<char>) -> Option<i64>
    decreases k.len(),
{
    if k.len() == 0 {
        None
    } else {
        opt_max(keyword_score(k.drop_last(), query), skim_score(k.last(), query))
    }
}

/// The best score of an application against `query`: of its name, its
/// generic name and its keywords.
pub open spec fn app_score(a: AppView, query: Seq<char>) -> Option<i64> {
    opt_max(
        opt_max(
            skim_score(a.name, query),
            match a.generic_name {
                Some(g) => skim_score(g, query),
                None => None,
            },
        ),
        keyword_score(a.keywords, query),
    )
}

/// A match: an application's score and its position in the list.
#[derive(Debug, Clone, Copy, PartialEq, Eq, Structural)]
pub struct Scored {
    pub score: i64,
    pub index: usize,
}

impl View for Scored {
    type V = Scored;

    open spec fn view(&self) -> Scored {
        *self
    }
}

impl SortKey for Scored {
    /// Better matches come first.
    open spec fn precedes(a: Scored, b: Scored) -> bool {
        a.score > b.score
    }

    fn precedes_exec(&self, other: &Self) -> (r: bool) {
        self.score > other.score
    }

    proof fn lemma_strict_weak_order(a: Scored, b: Scored, c: Scored) {
    }
}

/// The matches among the scores, in list order.
pub open spec fn matches_of(scores: Seq<Option<i64>>) -> Seq<Scored>
    decreases scores.len(),
{
    if scores.len() == 0 {
        Seq::<Scored>::empty()
    } else {
        match scores.last() {
            Some(s) => matches_of(scores.drop_last()).push(
                Scored { score: s, index: (scores.len() - 1) as usize },
            ),
            None => matches_of(scores.drop_last()),
        }
    }
}

/// The positions of the matching applications, best first, ties in list
/// order.
pub open spec fn ranked(scores: Seq<Option<i64>>) -> Seq<usize> {
    sort_by_key::<Scored>(matches_of(scores)).map_values(|s: Scored| s.index)
}

/// The positions `0..n`.
pub open spec fn all_positions(n: nat) -> Seq<usize> {
    Seq::new(n, |i: int| i as usize)
}

impl AppList {
    /// The applications in the list.
    pub closed spec fn apps(&self) -> Seq<AppView> {
        views_of(self.apps@)
    }

    /// The list of the applications found, sorted by name regardless of
    /// letter case, each name kept once where it repeats in a row.
    pub fn from_apps(found: Vec<App>) -> (r: Self)
        ensures
            r.apps() == dedup_names(sort_by_key::<App>(views_of(found@))),
    {
        let sorted = stable_sort(found);
        let ghost s = views_of(sorted@);
        let mut apps: Vec<App> = Vec::new();
        let mut i: usize = 0;
        let mut rest = sorted;
        let mut rev: Vec<App> = Vec::new();
        while rest.len() > 0
            invariant
                rest@.len() + rev@.len() == s.len(),
                views_of(rest@) == s.take(rest@.len() as int),
                forall|j: int| 0 <= j < rev@.len() ==> #[trigger] rev@[j]@ == s[s.len() - 1 - j],
            decreases rest@.len(),
        {
            let ghost n = rest@.len();
            assert(views_of(rest@)[n - 1] == rest@[n - 1]@);
            let e = rest.pop().unwrap();
            rev.push(e);
            assert(views_of(rest@) =~= s.take(rest@.len() as int));
        }
        assert(s.take(0) =~= Seq::<AppView>::empty());
        assert(views_of(apps@) =~= Seq::<AppView>::empty());
        while rev.len() > 0
            invariant
                rev@.len() <= s.len(),
                forall|j: int| 0 <= j < rev@.len() ==> #[trigger] rev@[j]@ == s[s.len() - 1 - j],
                views_of(apps@) == dedup_names(s.take(s.len() - rev@.len())),
            decreases rev@.len(),
        {
            let ghost k = s.len() - rev@.len();
            let e = rev.pop().unwrap();
            assert(e@ == s[k]);
            assert(s.take(k + 1).drop_last() =~= s.take(k));
            let keep = if apps.len() > 0 {
                let last = apps.len() - 1;
                assert(views_of(apps@)[last as int] == apps@[last as int]@);
                let a = chars_of(apps[last].name.as_str());
                let b = chars_of(e.name.as_str());
                !seq_eq(a.as_slice(), b.as_slice())
            } else {
                true
            };
            if keep {
                let ghost before = apps@;
                apps.push(e);
                assert(views_of(apps@) =~= views_of(before).push(s[k]));
            }
        }
        assert(s.take(s.len() as int) =~= s);
        AppList { apps }
    }

    /// The application that a desktop file's content describes.
    pub fn parse_desktop_file(content: &str, path: &str) -> (r: Option<App>)
        ensures
            match desktop_app(content@, path@) {
                Some(a) => r matches Some(x) && x@ == a,
                None => r is None,
            },
    {
        let a = desktop_attrs(content);
        let no_display = attr_exec(&a, "NoDisplay");
        let hidden = attr_exec(&a, "Hidden");
        let is_true = |o: &Option<Vec<char>>| -> (b: bool)
            ensures
                b == (match o {
                    Some(v) => v@ == "true"@,
                    None => false,
                }),
            {
                match o {
                    Some(v) => eq_str(v.as_slice(), "true"),
                    None => false,
                }
            };
        if is_true(&no_display) || is_true(&hidden) {
            return None;
        }
        let name = match attr_exec(&a, "Name") {
            Some(n) => n,
            None => {
                return None;
            },
        };
        let exec_raw = match attr_exec(&a, "Exec") {
            Some(e) => e,
            None => {
                return None;
            },
        };
        let w = split_ws(exec_raw.as_slice());
        let mut kept: Vec<Vec<char>> = Vec::new();
        let mut i: usize = 0;
        assert(views(w@).take(0) =~= Seq::<Seq<char>>::empty());
        assert(views(kept@) =~= Seq::<Seq<char>>::empty());
        while i < w.len()
            invariant
                i <= w@.len(),
                views(kept@) == without_field_codes(views(w@).take(i as int)),
            decreases w@.len() - i,
        {
            assert(views(w@).take(i + 1).drop_last() =~= views(w@).take(i as int));
            assert(views(w@)[i as int] == w@[i as int]@);
            if !(w[i].len() > 0 && w[i][0] == '%') {
                let ghost before = kept@;
                kept.push(w[i].clone());
                assert(views(kept@) =~= views(before).push(w@[i as int]@));
            }
            i = i + 1;
        }
        assert(views(w@).take(i as int) =~= views(w@));
        let command = join_words(&kept);
        let keywords = match attr_exec(&a, "Keywords") {
            Some(k) => {
                let p = split_on(k.as_slice(), ';');
                let mut r: Vec<String> = Vec::new();
                let mut j: usize = 0;
                assert(views(p@).take(0) =~= Seq::<Seq<char>>::empty());
                assert(string_views(r@) =~= Seq::<Seq<char>>::empty());
                while j < p.len()
                    invariant
                        j <= p@.len(),
                        string_views(r@) == keyword_list(views(p@).take(j as int)),
                    decreases p@.len() - j,
                {
                    assert(views(p@).take(j + 1).drop_last() =~= views(p@).take(j as int));
                    assert(views(p@)[j as int] == p@[j as int]@);
                    if p[j].len() > 0 {
                        let ghost before = r@;
                        let s = string_of(p[j].as_slice());
                        r.push(s);
                        assert(string_views(r@) =~= string_views(before).push(s@));
                    }
                    j = j + 1;
                }
                assert(views(p@).take(j as int) =~= views(p@));
                r
            },
            None => {
                let r: Vec<String> = Vec::new();
                assert(string_views(r@) =~= Seq::<Seq<char>>::empty());
                r
            },
        };
        let terminal = is_true(&attr_exec(&a, "Terminal"));
        Some(
            App {
                name: string_of(name.as_slice()),
                generic_name: match attr_exec(&a, "GenericName") {
                    Some(g) => Some(string_of(g.as_slice())),
                    None => None,
                },
                command: string_of(command.as_slice()),
                icon: match attr_exec(&a, "Icon") {
                    Some(g) => Some(string_of(g.as_slice())),
                    None => None,
                },
                keywords,
                terminal,
                desktop_file: string_from(path),
            },
        )
    }

    /// The positions of the applications that match `query`, best first;
    /// all positions for an empty query.
    pub fn search(&self, query: &str) -> (r: Vec<usize>)
        ensures
            query@.len() == 0 ==> r@ == all_positions(self.apps().len()),
            query@.len() > 0 ==> r@ == ranked(
                self.apps().map_values(|a: AppView| app_score(a, query@)),
            ),
    {
        if query.unicode_len() == 0 {
            let mut r: Vec<usize> = Vec::new();
            let mut i: usize = 0;
            while i < self.apps.len()
                invariant
                    i <= self.apps@.len(),
                    r@ == all_positions(i as nat),
                decreases self.apps@.len() - i,
            {
                r.push(i);
                i = i + 1;
                assert(r@ =~= all_positions(i as nat));
            }
            return r;
        }
        let ghost q = query@;
        let mut scores: Vec<Option<i64>> = Vec::new();
        let mut i: usize = 0;
        while i < self.apps.len()
            invariant
                i <= self.apps@.len(),
                q == query@,
                scores@ == self.apps().take(i as int).map_values(|a: AppView| app_score(a, q)),
            decreases self.apps@.len() - i,
        {
            let app = &self.apps[i];
            assert(self.apps()[i as int] == app@);
            let s = Self::score(app, query);
            scores.push(s);
            assert(scores@ =~= self.apps().take(i + 1).map_values(|a: AppView| app_score(a, q)));
            i = i + 1;
        }
        assert(self.apps().take(i as int) =~= self.apps());
        Self::rank_matches(&scores)
    }

    /// The best score of an application against a query.
    fn score(app: &App, query: &str) -> (r: Option<i64>)
        ensures
            r == app_score(app@, query@),
    {
        let name_score = fuzzy_match(app.name.as_str(), query);
        let generic_score = match &app.generic_name {
            Some(g) => fuzzy_match(g.as_str(), query),
            None => None,
        };
        let mut kw: Option<i64> = None;
        let mut k: usize = 0;
        assert(string_views(app.keywords@).take(0) =~= Seq::<Seq<char>>::empty());
        while k < app.keywords.len()
            invariant
                k <= app.keywords@.len(),
                kw == keyword_score(string_views(app.keywords@).take(k as int), query@),
            decreases app.keywords@.len() - k,
        {
            assert(string_views(app.keywords@).take(k + 1).drop_last() =~= string_views(
                app.keywords@,
            ).take(k as int));
            assert(string_views(app.keywords@)[k as int] == app.keywords@[k as int]@);
            let s = fuzzy_match(app.keywords[k].as_str(), query);
            kw = opt_max_exec(kw, s);
            k = k + 1;
        }
        assert(string_views(app.keywords@).take(k as int) =~= string_views(app.keywords@));
        opt_max_exec(opt_max_exec(name_score, generic_score), kw)
    }

    /// The positions of the matches among the scores, best first, ties in
    /// list order.
    pub fn rank_matches(scores: &Vec<Option<i64>>) -> (r: Vec<usize>)
        ensures
            r@ == ranked(scores@),
    {
        let mut m: Vec<Scored> = Vec::new();
        let mut i: usize = 0;
        assert(scores@.take(0) =~= Seq::<Option<i64>>::empty());
        assert(views_of(m@) =~= Seq::<Scored>::empty());
        while i < scores.len()
            invariant
                i <= scores@.len(),
                views_of(m@) == matches_of(scores@.take(i as int)),
            decreases scores@.len() - i,
        {
            assert(scores@.take(i + 1).drop_last() =~= scores@.take(i as int));
            match scores[i] {
                Some(s) => {
                    let ghost before = m@;
                    m.push(Scored { score: s, index: i });
                    assert(views_of(m@) =~= views_of(before).push(Scored { score: s, index: i }));
                },
                None => {},
            }
            i = i + 1;
        }
        assert(scores@.take(i as int) =~= scores@);
        let sorted = stable_sort(m);
        let ghost sv = views_of(sorted@);
        let mut r: Vec<usize> = Vec::new();
        let mut j: usize = 0;
        while j < sorted.len()
            invariant
                j <= sorted@.len(),
                sv == views_of(sorted@),
                r@ == sv.take(j as int).map_values(|s: Scored| s.index),
            decreases sorted@.len() - j,
        {
            assert(sv[j as int] == sorted@[j as int]);
            r.push(sorted[j].index);
            assert(r@ =~= sv.take(j + 1).map_values(|s: Scored| s.index));
            j = j + 1;
        }
        assert(sv.take(j as int) =~= sv);
        r
    }

    /// The application at `idx`, if there is one.
    pub fn get(&self, idx: usize) -> (r: Option<&App>)
        ensures
            match r {
                Some(a) => idx < self.apps().len() && a@ == self.apps()[idx as int],
                None => idx >= self.apps().len(),
            },
    {
        if idx < self.apps.len() {
            assert(self.apps()[idx as int] == self.apps@[idx as int]@);
            Some(&self.apps[idx])
        } else {
            None
        }
    }

    /// The number of applications.
    pub fn len(&self) -> (r: usize)
        ensures
            r == self.apps().len(),
    {
        self.apps.len()
    }

    /// The daemon's answer to a request: the information of the matching
    /// applications for a search, of the first hundred for a list, and a
    /// pong for a ping.
    pub fn respond(&self, request: &Request) -> (r: Response)
        ensures
            r@ == answer(self.apps(), request@),
    {
        match request {
            Request::Search { query } => {
                let idxs = self.search(query.as_str());
                let count = self.apps.len();
                proof {
                    assert(self.apps().len() == count);
                    if query@.len() > 0 {
                        law_ranked_matches(self.apps().map_values(|a: AppView| app_score(a, query@)));
                    }
                }
                let ghost want = (if query@.len() == 0 {
                    all_positions(self.apps().len())
                } else {
                    ranked(self.apps().map_values(|a: AppView| app_score(a, query@)))
                });
                assert(idxs@ == want);
                let mut infos: Vec<AppInfo> = Vec::new();
                let mut i: usize = 0;
                while i < idxs.len()
                    invariant
                        i <= idxs@.len(),
                        idxs@ == want,
                        forall|j: int| 0 <= j < want.len() ==> (#[trigger] want[j]) < self.apps().len(),
                        infos@.map_values(|x: AppInfo| x@) == want.take(i as int).map_values(
                            |k: usize| info_of(self.apps()[k as int]),
                        ),
                    decreases idxs@.len() - i,
                {
                    let k = idxs[i];
                    assert(want[i as int] == k);
                    let app = &self.apps[k];
                    assert(self.apps()[k as int] == app@);
                    let info = info_from(app);
                    let ghost before = infos@;
                    infos.push(info);
                    assert(infos@.map_values(|x: AppInfo| x@) =~= before.map_values(|x: AppInfo| x@).push(info_of(self.apps()[k as int])));
                    assert(want.take(i + 1) =~= want.take(i as int).push(k));
                    assert(infos@.map_values(|x: AppInfo| x@) =~= want.take(i + 1).map_values(
                        |k: usize| info_of(self.apps()[k as int]),
                    ));
                    i = i + 1;
                }
                assert(want.take(i as int) =~= want);
                Response::Results { apps: infos }
            },
            Request::List => {
                let n = if self.apps.len() < 100 {
                    self.apps.len()
                } else {
                    100
                };
                let mut infos: Vec<AppInfo> = Vec::new();
                let mut i: usize = 0;
                while i < n
                    invariant
                        i <= n <= self.apps@.len(),
                        n == (if self.apps().len() < 100 { self.apps().len() as int } else { 100 }),
                        infos@.map_values(|x: AppInfo| x@) == self.apps().take(i as int).map_values(
                            |a: AppView| info_of(a),
                        ),
                    decreases n - i,
                {
                    assert(self.apps()[i as int] == self.apps@[i as int]@);
                    let info = info_from(&self.apps[i]);
                    let ghost before = infos@;
                    infos.push(info);
                    assert(infos@.map_values(|x: AppInfo| x@) =~= before.map_values(|x: AppInfo| x@).push(info_of(self.apps()[i as int])));
                    assert(self.apps().take(i + 1) =~= self.apps().take(i as int).push(self.apps()[i as int]));
                    assert(infos@.map_values(|x: AppInfo| x@) =~= self.apps().take(i + 1).map_values(
                        |a: AppView| info_of(a),
                    ));
                    i = i + 1;
                }
                Response::Results { apps: infos }
            },
            Request::Ping => Response::Pong,
        }
    }
}

/// What the matches of the scores hold: each is a position with a score,
/// and each position with a score is one of them.
proof fn lemma_matches_of(scores: Seq<Option<i64>>)
    requires
        scores.len() <= usize::MAX,
    ensures
        forall|k: int|
            0 <= k < matches_of(scores).len() ==> (#[trigger] matches_of(scores)[k]).index
                < scores.len() && scores[matches_of(scores)[k].index as int] == Some(
                matches_of(scores)[k].score,
            ),
        forall|i: int|
            0 <= i < scores.len() && #[trigger] scores[i] is Some ==> matches_of(scores).contains(
                Scored { score: scores[i]->Some_0, index: i as usize },
            ),
    decreases scores.len(),
{
    if scores.len() > 0 {
        let d = scores.drop_last();
        lemma_matches_of(d);
        let p = matches_of(d);
        assert forall|k: int| 0 <= k < matches_of(scores).len() implies (#[trigger] matches_of(
            scores,
        )[k]).index < scores.len() && scores[matches_of(scores)[k].index as int] == Some(
            matches_of(scores)[k].score,
        ) by {
            if k < p.len() {
                assert(matches_of(scores)[k] == p[k]);
                assert(d[p[k].index as int] == scores[p[k].index as int]);
            }
        }
        assert forall|i: int| 0 <= i < scores.len() && #[trigger] scores[i] is Some implies matches_of(
            scores,
        ).contains(Scored { score: scores[i]->Some_0, index: i as usize }) by {
            let x = Scored { score: scores[i]->Some_0, index: i as usize };
            if i < scores.len() - 1 {
                assert(d[i] == scores[i]);
                assert(p.contains(x));
                let j = choose|j: int| 0 <= j < p.len() && p[j] == x;
                assert(matches_of(scores)[j] == x);
            } else {
                assert(matches_of(scores)[matches_of(scores).len() - 1] == x);
            }
        }
    }
}

/// The positions that a search ranks are exactly those of the
/// applications that match, each once, best score first.
pub proof fn law_ranked_matches(scores: Seq<Option<i64>>)
    requires
        scores.len() <= usize::MAX,
    ensures
        forall|j: int|
            0 <= j < ranked(scores).len() ==> (#[trigger] ranked(scores)[j]) < scores.len()
                && scores[ranked(scores)[j] as int] is Some,
        forall|j: int, k: int|
            0 <= j < k < ranked(scores).len() ==> scores[#[trigger] ranked(scores)[j] as int]->Some_0
                >= scores[#[trigger] ranked(scores)[k] as int]->Some_0,
        forall|i: int|
            0 <= i < scores.len() && #[trigger] scores[i] is Some ==> ranked(scores).contains(
                i as usize,
            ),
        ranked(scores).len() == matches_of(scores).len(),
{
    broadcast use vstd::seq_lib::group_to_multiset_ensures;

    lemma_matches_of(scores);
    let m = matches_of(scores);
    crate::order::law_sort_by_key::<Scored>(m);
    let s = sort_by_key::<Scored>(m);
    assert forall|j: int| 0 <= j < s.len() implies #[trigger] m.contains(s[j]) by {
        assert(s.to_multiset().count(s[j]) > 0);
        assert(m.to_multiset().count(s[j]) > 0);
    }
    assert forall|j: int| 0 <= j < ranked(scores).len() implies (#[trigger] ranked(scores)[j])
        < scores.len() && scores[ranked(scores)[j] as int] is Some by {
        assert(ranked(scores)[j] == s[j].index);
        assert(m.contains(s[j]));
        let k = choose|k: int| 0 <= k < m.len() && m[k] == s[j];
    }
    assert forall|j: int, k: int| 0 <= j < k < ranked(scores).len() implies scores[
        #[trigger] ranked(scores)[j] as int]->Some_0 >= scores[#[trigger] ranked(
        scores,
    )[k] as int]->Some_0 by {
        assert(ranked(scores)[j] == s[j].index);
        assert(ranked(scores)[k] == s[k].index);
        assert(m.contains(s[j]));
        assert(m.contains(s[k]));
        let a = choose|a: int| 0 <= a < m.len() && m[a] == s[j];
        let b = choose|b: int| 0 <= b < m.len() && m[b] == s[k];
        assert(!Scored::precedes(s[k], s[j]));
    }
    assert forall|i: int| 0 <= i < scores.len() && #[trigger] scores[i] is Some implies ranked(
        scores,
    ).contains(i as usize) by {
        let x = Scored { score: scores[i]->Some_0, index: i as usize };
        assert(m.contains(x));
        let a = choose|a: int| 0 <= a < m.len() && m[a] == x;
        assert(m.to_multiset().count(x) > 0);
        assert(s.to_multiset().count(x) > 0);
        let b = choose|b: int| 0 <= b < s.len() && s[b] == x;
        assert(ranked(scores)[b] == i as usize);
    }
}

/// The best keyword score is at least the score of every keyword that
/// matches, and when some keyword matches it is the score of one of them.
proof fn lemma_keyword_score(k: Seq<Seq<char>>, q: Seq<char>)
    ensures
        forall|i: int|
            0 <= i < k.len() && (#[trigger] skim_score(k[i], q)) is Some ==> keyword_score(k, q)
                is Some && keyword_score(k, q)->Some_0 >= skim_score(k[i], q)->Some_0,
        keyword_score(k, q) is Some ==> exists|i: int|
            0 <= i < k.len() && #[trigger] skim_score(k[i], q) == keyword_score(k, q),
    decreases k.len(),
{
    if k.len() > 0 {
        let d = k.drop_last();
        lemma_keyword_score(d, q);
        assert forall|i: int|
            0 <= i < k.len() && (#[trigger] skim_score(k[i], q)) is Some implies keyword_score(k, q)
                is Some && keyword_score(k, q)->Some_0 >= skim_score(k[i], q)->Some_0 by {
            if i < k.len() - 1 {
                assert(d[i] == k[i]);
            }
        }
        if keyword_score(k, q) is Some {
            if keyword_score(k, q) == skim_score(k.last(), q) {
                assert(skim_score(k[k.len() - 1], q) == keyword_score(k, q));
            } else {
                let j = choose|j: int|
                    0 <= j < d.len() && #[trigger] skim_score(d[j], q) == keyword_score(d, q);
                assert(d[j] == k[j]);
                assert(skim_score(k[j], q) == keyword_score(k, q));
            }
        }
    }
}

/// An application matches a query through any of its fields: when its
/// name, its generic name or one of its keywords fuzzy-matches the query,
/// the application matches with at least that field's score; and a
/// matching application's score is the score of one of those fields.
pub proof fn law_app_score_best_field(a: AppView, q: Seq<char>)
    ensures
        skim_score(a.name, q) is Some ==> app_score(a, q) is Some && app_score(a, q)->Some_0
            >= skim_score(a.name, q)->Some_0,
        a.generic_name is Some && skim_score(a.generic_name->Some_0, q) is Some ==> app_score(a, q)
            is Some && app_score(a, q)->Some_0 >= skim_score(a.generic_name->Some_0, q)->Some_0,
        forall|i: int|
            0 <= i < a.keywords.len() && (#[trigger] skim_score(a.keywords[i], q)) is Some
                ==> app_score(a, q) is Some && app_score(a, q)->Some_0 >= skim_score(
                a.keywords[i],
                q,
            )->Some_0,
        app_score(a, q) is Some ==> {
            ||| app_score(a, q) == skim_score(a.name, q)
            ||| (a.generic_name is Some && app_score(a, q) == skim_score(a.generic_name->Some_0, q))
            ||| exists|i: int|
                0 <= i < a.keywords.len() && #[trigger] skim_score(a.keywords[i], q) == app_score(
                    a,
                    q,
                )
        },
{
    lemma_keyword_score(a.keywords, q);
}

/// A search finds every application whose generic name fuzzy-matches the
/// query, as it finds one whose name or keyword does.
pub proof fn law_search_finds_generic_name(apps: Seq<AppView>, q: Seq<char>, i: int)
    requires
        apps.len() <= usize::MAX,
        0 <= i < apps.len(),
        apps[i].generic_name is Some,
        skim_score(apps[i].generic_name->Some_0, q) is Some,
    ensures
        ranked(apps.map_values(|a: AppView| app_score(a, q))).contains(i as usize),
{
    let scores = apps.map_values(|a: AppView| app_score(a, q));
    law_app_score_best_field(apps[i], q);
    assert(scores[i] is Some);
    law_ranked_matches(scores);
}

fn info_from(a: &App) -> (r: AppInfo)
    ensures
        r@ == info_of(a@),
{
    AppInfo {
        name: a.name.clone(),
        generic_name: match &a.generic_name {
            Some(g) => Some(g.clone()),
            None => None,
        },
        command: a.command.clone(),
        icon: match &a.icon {
            Some(g) => Some(g.clone()),
            None => None,
        },
        terminal: a.terminal,
        desktop_file: a.desktop_file.clone(),
    }
}

fn opt_max_exec(a: Option<i64>, b: Option<i64>) -> (r: Option<i64>)
    ensures
        r == opt_max(a, b),
{
    match (a, b) {
        (Some(x), Some(y)) => Some(
            if x >= y {
                x
            } else {
                y
            },
        ),
        (Some(x), None) => Some(x),
        (None, Some(y)) => Some(y),
        (None, None) => None,
    }
}

/// The words joined with single spaces.
fn join_words(w: &Vec<Vec<char>>) -> (r: Vec<char>)
    ensures
        r@ == joined(views(w@)),
{
    let mut r: Vec<char> = Vec::new();
    let mut i: usize = 0;
    assert(views(w@).take(0) =~= Seq::<Seq<char>>::empty());
    while i < w.len()
        invariant
            i <= w@.len(),
            r@ == joined(views(w@).take(i as int)),
        decreases w@.len() - i,
    {
        assert(views(w@).take(i + 1).drop_last() =~= views(w@).take(i as int));
        assert(views(w@)[i as int] == w@[i as int]@);
        if i > 0 {
            append_str(&mut r, " ");
        }
        append(&mut r, w[i].as_slice());
        i = i + 1;
    }
    assert(views(w@).take(i as int) =~= views(w@));
    r
}

/// The attributes of a desktop file's `[Desktop Entry]` section.
fn desktop_attrs(content: &str) -> (r: Vec<(Vec<char>, Vec<char>)>)
    ensures
        r@.map_values(|e: (Vec<char>, Vec<char>)| (e.0@, e.1@)) == desktop_scan(lines(content@)).1,
{
    let ls = lines_of(chars_of(content).as_slice());
    let mut in_entry = false;
    let mut r: Vec<(Vec<char>, Vec<char>)> = Vec::new();
    let mut i: usize = 0;
    assert(views(ls@).take(0) =~= Seq::<Seq<char>>::empty());
    assert(r@.map_values(|e: (Vec<char>, Vec<char>)| (e.0@, e.1@)) =~= Seq::<
        (Seq<char>, Seq<char>),
    >::empty());
    while i < ls.len()
        invariant
            i <= ls@.len(),
            views(ls@) == lines(content@),
            desktop_scan(views(ls@).take(i as int)) == (
                in_entry,
                r@.map_values(|e: (Vec<char>, Vec<char>)| (e.0@, e.1@)),
            ),
        decreases ls@.len() - i,
    {
        assert(views(ls@).take(i + 1).drop_last() =~= views(ls@).take(i as int));
        assert(views(ls@)[i as int] == ls@[i as int]@);
        let t = trimmed(ls[i].as_slice());
        if t.len() > 0 && t[0] == '[' && t[t.len() - 1] == ']' {
            in_entry = eq_str(t.as_slice(), "[Desktop Entry]");
        } else if in_entry {
            match split_once_exec(t.as_slice(), '=') {
                Some((k, v)) => {
                    let ghost before = r@;
                    let e = (trimmed(k.as_slice()), trimmed(v.as_slice()));
                    r.push(e);
                    assert(r@.map_values(|e: (Vec<char>, Vec<char>)| (e.0@, e.1@)) =~= before.map_values(
                        |e: (Vec<char>, Vec<char>)| (e.0@, e.1@),
                    ).push((e.0@, e.1@)));
                },
                None => {},
            }
        }
        i = i + 1;
    }
    assert(views(ls@).take(i as int) =~= views(ls@));
    r
}

/// The value of the last attribute `key`.
fn attr_exec(a: &Vec<(Vec<char>, Vec<char>)>, key: &str) -> (r: Option<Vec<char>>)
    ensures
        match attr(a@.map_values(|e: (Vec<char>, Vec<char>)| (e.0@, e.1@)), key@) {
            Some(v) => r matches Some(x) && x@ == v,
            None => r is None,
        },
{
    let ghost v = a@.map_values(|e: (Vec<char>, Vec<char>)| (e.0@, e.1@));
    let kc = chars_of(key);
    let mut k: usize = a.len();
    assert(v.take(k as int) =~= v);
    while k > 0
        invariant
            k <= a@.len(),
            v == a@.map_values(|e: (Vec<char>, Vec<char>)| (e.0@, e.1@)),
            kc@ == key@,
            attr(v, key@) == attr(v.take(k as int), key@),
        decreases k,
    {
        assert(v.take(k as int).last() == v[k - 1]);
        assert(v.take(k as int).drop_last() =~= v.take(k - 1));
        if seq_eq(a[k - 1].0.as_slice(), kc.as_slice()) {
            return Some(a[k - 1].1.clone());
        }
        k = k - 1;
    }
    None
}

/// Client of the launcher daemon; the connection itself is held by the
/// program that sends the requests.
#[derive(Debug)]
pub struct DaemonClient;

/// The views of a sequence of application records.
pub open spec fn info_views(v: Seq<AppInfo>) -> Seq<AppInfoView> {
    v.map_values(|i: AppInfo| i@)
}

impl DaemonClient {
    /// The request that a search sends: a listing for an empty query.
    pub fn search(query: &str) -> (r: Request)
        ensures
            r@ == request_for(query@),
    {
        if query.unicode_len() == 0 {
            Request::List
        } else {
            Request::Search { query: crate::text::string_from(query) }
        }
    }

    /// What a search gives from the daemon's answer: the applications of a
    /// result, the daemon's error, or an error for any other answer.
    pub fn search_outcome(response: Response) -> (r: Result<Vec<AppInfo>, String>)
        ensures
            outcome_of(response@) == match r {
                Ok(v) => Ok::<Seq<AppInfoView>, Seq<char>>(info_views(v@)),
                Err(e) => Err(e@),
            },
    {
        match response {
            Response::Results { apps } => Ok(apps),
            Response::Error { message } => {
                let mut m: Vec<char> = crate::text::chars_of("Daemon error: ");
                crate::text::append(&mut m, crate::text::chars_of(message.as_str()).as_slice());
                Err(string_of(m.as_slice()))
            },
            Response::Pong => Err(crate::text::string_from("Unexpected response")),
        }
    }

    /// Whether the daemon's answer to a ping says it is alive.
    pub fn ping_outcome(response: &Response) -> (r: bool)
        ensures
            r == (response is Pong),
    {
        match response {
            Response::Pong => true,
            _ => false,
        }
    }
}

/// A client's search through the daemon gives what the daemon ranks: for
/// a query, the information of the applications that match it, each once,
/// best match first; for an empty query, that of the first hundred
/// applications.
pub proof fn law_search_through_daemon(apps: Seq<AppView>, query: Seq<char>)
    requires
        apps.len() <= usize::MAX,
    ensures
        query.len() == 0 ==> outcome_of(answer(apps, request_for(query))) == Ok::<
            Seq<AppInfoView>,
            Seq<char>,
        >(apps.take(listed(apps.len())).map_values(|a: AppView| info_of(a))),
        query.len() > 0 ==> ({
            let scores = apps.map_values(|a: AppView| app_score(a, query));
            let r = ranked(scores);
            &&& outcome_of(answer(apps, request_for(query))) == Ok::<Seq<AppInfoView>, Seq<char>>(
                r.map_values(|k: usize| info_of(apps[k as int])),
            )
            &&& forall|j: int| 0 <= j < r.len() ==> #[trigger] r[j] < apps.len()
                && app_score(apps[r[j] as int], query) is Some
            &&& forall|j: int, k: int|
                0 <= j < k < r.len() ==> app_score(apps[#[trigger] r[j] as int], query)->Some_0
                    >= app_score(apps[#[trigger] r[k] as int], query)->Some_0
            &&& forall|i: int|
                0 <= i < apps.len() && #[trigger] app_score(apps[i], query) is Some ==> r.contains(
                    i as usize,
                )
        }),
{
    if query.len() > 0 {
        let scores = apps.map_values(|a: AppView| app_score(a, query));
        law_ranked_matches(scores);
        let r = ranked(scores);
        assert forall|j: int| 0 <= j < r.len() implies #[trigger] r[j] < apps.len() && app_score(
            apps[r[j] as int],
            query,
        ) is Some by {
            assert(scores[r[j] as int] is Some);
        }
        assert forall|j: int, k: int| 0 <= j < k < r.len() implies app_score(
            apps[#[trigger] r[j] as int],
            query,
        )->Some_0 >= app_score(apps[#[trigger] r[k] as int], query)->Some_0 by {
            assert(scores[r[j] as int]->Some_0 >= scores[r[k] as int]->Some_0);
        }
        assert forall|i: int| 0 <= i < apps.len() && #[trigger] app_score(apps[i], query)
            is Some implies r.contains(i as usize) by {
            assert(scores[i] is Some);
        }
    }
}

} // verus!
