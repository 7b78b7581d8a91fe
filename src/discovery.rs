//! Finding the seed URLs of a domain: `robots.txt` first, then
//! `sitemap.xml`, then a crawl of the site, each tried only when the one
//! before it gave nothing.
//!
//! The decisions are a state machine; the caller performs each requested
//! action and hands the outcome back.
use vstd::prelude::*;
use crate::text::{chars_of, push_str, push_trimmed, split_nl, string_of, trim,
    trim_bounds, lemma_split_nl_nonempty};

verus! {

/// The views of a list of strings.
pub open spec fn views(v: Seq<String>) -> Seq<Seq<char>> {
    v.map_values(|s: String| s@)
}

/// The ASCII lower case of a letter of `sitemap`.
pub open spec fn lower(c: char) -> char {
    if c == 'S' { 's' } else if c == 'I' { 'i' } else if c == 'T' { 't' } else if c == 'E' { 'e' }
    else if c == 'M' { 'm' } else if c == 'A' { 'a' } else if c == 'P' { 'p' } else { c }
}

fn lower_char(c: char) -> (r: char)
    ensures
        r == lower(c),
{
    if c == 'S' { 's' } else if c == 'I' { 'i' } else if c == 'T' { 't' } else if c == 'E' { 'e' }
    else if c == 'M' { 'm' } else if c == 'A' { 'a' } else if c == 'P' { 'p' } else { c }
}

/// True when `t` starts with `sitemap:` in any casing.
pub open spec fn is_sitemap_line(t: Seq<char>) -> bool {
    &&& t.len() >= 8
    &&& lower(t[0]) == 's' && lower(t[1]) == 'i' && lower(t[2]) == 't' && lower(t[3]) == 'e'
    &&& lower(t[4]) == 'm' && lower(t[5]) == 'a' && lower(t[6]) == 'p' && t[7] == ':'
}

/// What one line of `robots.txt` contributes: the trimmed rest of a
/// `sitemap:` line.
pub open spec fn entry_of(line: Seq<char>) -> Seq<Seq<char>> {
    let t = trim(line);
    if is_sitemap_line(t) {
        seq![trim(t.subrange(8, t.len() as int))]
    } else {
        seq![]
    }
}

/// The entries of a list of lines, in order.
pub open spec fn entries_of_lines(ls: Seq<Seq<char>>) -> Seq<Seq<char>>
    decreases ls.len(),
{
    if ls.len() == 0 {
        seq![]
    } else {
        entries_of_lines(ls.drop_last()) + entry_of(ls.last())
    }
}

/// The sitemap URLs that a `robots.txt` body lists, in file order.
pub open spec fn sitemap_entries(body: Seq<char>) -> Seq<Seq<char>> {
    entries_of_lines(split_nl(body))
}

fn push_entry(out: &mut Vec<String>, v: &Vec<char>, lo: usize, hi: usize)
    requires
        lo <= hi <= v@.len(),
    ensures
        views(final(out)@) == views(old(out)@) + entry_of(v@.subrange(lo as int, hi as int)),
{
    let ghost line = v@.subrange(lo as int, hi as int);
    let (a, b) = trim_bounds(v, lo, hi);
    let ghost t = v@.subrange(a as int, b as int);
    if b - a >= 8 && lower_char(v[a]) == 's' && lower_char(v[a + 1]) == 'i'
        && lower_char(v[a + 2]) == 't' && lower_char(v[a + 3]) == 'e'
        && lower_char(v[a + 4]) == 'm' && lower_char(v[a + 5]) == 'a'
        && lower_char(v[a + 6]) == 'p' && v[a + 7] == ':' {
        let mut e: Vec<char> = Vec::new();
        push_trimmed(&mut e, v, a + 8, b);
        assert(t.subrange(8, t.len() as int) =~= v@.subrange(a + 8, b as int));
        out.push(string_of(&e));
        assert(views(final(out)@) =~= views(old(out)@) + entry_of(line));
    } else {
        assert(!is_sitemap_line(t));
        assert(views(final(out)@) =~= views(old(out)@) + entry_of(line));
    }
}

/// The `sitemap:` entries of a `robots.txt` body, in file order.
pub fn sitemap_lines(body: &str) -> (r: Vec<String>)
    ensures
        views(r@) == sitemap_entries(body@),
{
    let v = chars_of(body);
    let n = v.len();
    let mut out: Vec<String> = Vec::new();
    let mut start: usize = 0;
    let mut i: usize = 0;
    proof { lemma_split_nl_nonempty(v@.subrange(0, 0)); }
    assert(split_nl(v@.subrange(0, 0)).drop_last() =~= Seq::<Seq<char>>::empty());
    assert(views(out@) =~= Seq::<Seq<char>>::empty());
    while i < n
        invariant
            n == v@.len(),
            start <= i <= n,
            split_nl(v@.subrange(0, i as int)).len() >= 1,
            split_nl(v@.subrange(0, i as int)).last() == v@.subrange(start as int, i as int),
            views(out@) == entries_of_lines(split_nl(v@.subrange(0, i as int)).drop_last()),
        decreases n - i,
    {
        let ghost p = split_nl(v@.subrange(0, i as int));
        let ghost q = split_nl(v@.subrange(0, i + 1));
        assert(v@.subrange(0, i + 1).drop_last() =~= v@.subrange(0, i as int));
        if v[i] == '\n' {
            push_entry(&mut out, &v, start, i);
            assert(q == p.push(Seq::<char>::empty()));
            assert(q.drop_last() =~= p);
            assert(p.drop_last().push(p.last()) =~= p);
            assert(v@.subrange(i + 1, i + 1) =~= Seq::<char>::empty());
            start = i + 1;
        } else {
            assert(q == p.update(p.len() - 1, p.last().push(v@[i as int])));
            assert(q.drop_last() =~= p.drop_last());
            assert(v@.subrange(start as int, i + 1) =~= v@.subrange(start as int, i as int).push(v@[i as int]));
        }
        i = i + 1;
    }
    let ghost p = split_nl(v@.subrange(0, n as int));
    push_entry(&mut out, &v, start, n);
    assert(v@.subrange(0, n as int) =~= v@);
    assert(p.drop_last().push(p.last()) =~= p);
    out
}

/// Where a seed list came from.
#[derive(Debug, Clone, Copy, PartialEq, Eq, Structural)]
pub enum DiscoverySource {
    RobotsTxt,
    SitemapReference,
    NativeCrawl,
}

/// The stage of discovery.
#[derive(Debug, Clone, Copy, PartialEq, Eq, Structural)]
pub enum Stage {
    TryRobots,
    TrySitemap,
    NativeCrawl,
    Done,
}

/// What the caller observed when it performed the last action.
pub enum Outcome {
    /// A response with a 2xx status, and its body.
    Success(String),
    /// A transport error or a status other than 2xx.
    Failure,
    /// The links that a crawl found, in the order it returned them.
    Links(Vec<String>),
}

/// The parameters of a crawl of the site itself.
pub struct CrawlRequest {
    pub domain: String,
    pub depth: usize,
    pub delay: u64,
    pub respect_robots_txt: bool,
}

/// What the caller is asked to do next.
pub enum Action {
    /// Fetch this URL and report the outcome.
    Fetch(String),
    /// Crawl the site and report the links found.
    Crawl(CrawlRequest),
    /// Discovery is over: these are the seed URLs.
    Finish(Vec<String>, DiscoverySource),
}

/// An action as values.
pub enum Plan {
    Fetch(Seq<char>),
    /// The domain, the depth, the delay and whether `robots.txt` is obeyed.
    Crawl(Seq<char>, nat, nat, bool),
    Finish(Seq<Seq<char>>, DiscoverySource),
}

impl View for Action {
    type V = Plan;

    open spec fn view(&self) -> Plan {
        match self {
            Action::Fetch(u) => Plan::Fetch(u@),
            Action::Crawl(c) => Plan::Crawl(c.domain@, c.depth as nat, c.delay as nat, c.respect_robots_txt),
            Action::Finish(v, s) => Plan::Finish(views(v@), *s),
        }
    }
}

/// The crawl depth used when both discovery files fail.
pub const CRAWL_DEPTH: usize = 2;

/// The delay between crawl requests.
pub const CRAWL_DELAY: u64 = 1;

pub open spec fn robots_url_of(domain: Seq<char>) -> Seq<char> {
    domain + "/robots.txt"@
}

pub open spec fn sitemap_url_of(domain: Seq<char>) -> Seq<char> {
    domain + "/sitemap.xml"@
}

/// One transition: the next stage and what to do there.
pub open spec fn next(stage: Stage, domain: Seq<char>, o: Outcome) -> (Stage, Plan) {
    match stage {
        Stage::TryRobots => {
            let found = match o {
                Outcome::Success(b) => sitemap_entries(b@),
                _ => seq![],
            };
            if found.len() > 0 {
                (Stage::Done, Plan::Finish(found, DiscoverySource::RobotsTxt))
            } else {
                (Stage::TrySitemap, Plan::Fetch(sitemap_url_of(domain)))
            }
        },
        Stage::TrySitemap => match o {
            Outcome::Success(_) => (
                Stage::Done,
                Plan::Finish(seq![sitemap_url_of(domain)], DiscoverySource::SitemapReference),
            ),
            _ => (Stage::NativeCrawl, Plan::Crawl(domain, CRAWL_DEPTH as nat, CRAWL_DELAY as nat, false)),
        },
        Stage::NativeCrawl => match o {
            Outcome::Links(v) => (Stage::Done, Plan::Finish(views(v@), DiscoverySource::NativeCrawl)),
            _ => (Stage::Done, Plan::Finish(seq![], DiscoverySource::NativeCrawl)),
        },
        Stage::Done => (Stage::Done, Plan::Finish(seq![], DiscoverySource::NativeCrawl)),
    }
}

/// Discovery of one domain's seed URLs.
pub struct Discovery {
    pub domain: String,
    pub stage: Stage,
}

/// `domain` followed by a literal suffix.
fn join(domain: &str, suffix: &str) -> (r: String)
    ensures
        r@ == domain@ + suffix@,
{
    let mut v = chars_of(domain);
    push_str(&mut v, suffix);
    string_of(&v)
}

impl Discovery {
    /// Starts discovery of `domain` (scheme and host, no trailing `/`): the
    /// first action fetches its `robots.txt`.
    pub fn start(domain: &str) -> (r: (Discovery, Action))
        ensures
            r.0.domain@ == domain@,
            r.0.stage == Stage::TryRobots,
            r.1@ == Plan::Fetch(robots_url_of(domain@)),
    {
        let d = Discovery { domain: String::from_str(domain), stage: Stage::TryRobots };
        let a = Action::Fetch(join(domain, "/robots.txt"));
        (d, a)
    }

    /// Takes the outcome of the last action and says what to do next.
    pub fn step(&mut self, outcome: Outcome) -> (r: Action)
        ensures
            final(self).domain@ == old(self).domain@,
            (final(self).stage, r@) == next(old(self).stage, old(self).domain@, outcome),
    {
        match self.stage {
            Stage::TryRobots => {
                let found = match &outcome {
                    Outcome::Success(b) => sitemap_lines(b.as_str()),
                    _ => Vec::new(),
                };
                if found.len() > 0 {
                    self.stage = Stage::Done;
                    Action::Finish(found, DiscoverySource::RobotsTxt)
                } else {
                    self.stage = Stage::TrySitemap;
                    assert(views(found@) =~= Seq::<Seq<char>>::empty());
                    Action::Fetch(join(self.domain.as_str(), "/sitemap.xml"))
                }
            },
            Stage::TrySitemap => match outcome {
                Outcome::Success(_) => {
                    self.stage = Stage::Done;
                    let mut v: Vec<String> = Vec::new();
                    v.push(join(self.domain.as_str(), "/sitemap.xml"));
                    assert(views(v@) =~= seq![sitemap_url_of(self.domain@)]);
                    Action::Finish(v, DiscoverySource::SitemapReference)
                },
                _ => {
                    self.stage = Stage::NativeCrawl;
                    Action::Crawl(CrawlRequest {
                        domain: self.domain.clone(),
                        depth: CRAWL_DEPTH,
                        delay: CRAWL_DELAY,
                        respect_robots_txt: false,
                    })
                },
            },
            Stage::NativeCrawl => {
                self.stage = Stage::Done;
                match outcome {
                    Outcome::Links(v) => Action::Finish(v, DiscoverySource::NativeCrawl),
                    _ => {
                        let v: Vec<String> = Vec::new();
                        assert(views(v@) =~= Seq::<Seq<char>>::empty());
                        Action::Finish(v, DiscoverySource::NativeCrawl)
                    },
                }
            },
            Stage::Done => {
                let v: Vec<String> = Vec::new();
                assert(views(v@) =~= Seq::<Seq<char>>::empty());
                Action::Finish(v, DiscoverySource::NativeCrawl)
            },
        }
    }
}

/// A `robots.txt` that lists one or more sitemaps ends discovery at once
/// with exactly those URLs, in file order; neither `sitemap.xml` nor a crawl
/// is asked for, then or later.
pub proof fn robots_entries_end_discovery(domain: Seq<char>, body: String, later: Outcome)
    requires
        sitemap_entries(body@).len() > 0,
    ensures
        next(Stage::TryRobots, domain, Outcome::Success(body))
            == (Stage::Done, Plan::Finish(sitemap_entries(body@), DiscoverySource::RobotsTxt)),
        next(Stage::Done, domain, later).1 is Finish,
{
}

/// When `robots.txt` fails or lists no sitemap and `sitemap.xml` answers
/// with success, the seeds are exactly `{domain}/sitemap.xml`.
pub proof fn sitemap_reference_is_sole_seed(domain: Seq<char>, robots: Outcome, body: String)
    requires
        match robots {
            Outcome::Success(b) => sitemap_entries(b@).len() == 0,
            _ => true,
        },
    ensures
        next(Stage::TryRobots, domain, robots) == (Stage::TrySitemap, Plan::Fetch(sitemap_url_of(domain))),
        next(Stage::TrySitemap, domain, Outcome::Success(body))
            == (Stage::Done, Plan::Finish(seq![sitemap_url_of(domain)], DiscoverySource::SitemapReference)),
{
}

/// When both files are unreachable, the seeds are the crawl's links,
/// unchanged and in their order.
pub proof fn crawl_output_is_seed_list(domain: Seq<char>, links: Vec<String>)
    ensures
        next(Stage::TryRobots, domain, Outcome::Failure) == (Stage::TrySitemap, Plan::Fetch(sitemap_url_of(domain))),
        next(Stage::TrySitemap, domain, Outcome::Failure)
            == (Stage::NativeCrawl, Plan::Crawl(domain, 2, 1, false)),
        next(Stage::NativeCrawl, domain, Outcome::Links(links))
            == (Stage::Done, Plan::Finish(views(links@), DiscoverySource::NativeCrawl)),
{
}

/// The outcome of a fetch from its status and body: a 2xx status is a
/// success, any other status a failure.
pub fn fetch_outcome(status: u16, body: String) -> (r: Outcome)
    ensures
        200 <= status <= 299 ==> r == Outcome::Success(body),
        !(200 <= status <= 299) ==> r is Failure,
{
    if 200 <= status && status <= 299 {
        Outcome::Success(body)
    } else {
        Outcome::Failure
    }
}

} // verus!
