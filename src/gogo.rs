//! The catalogue site: what a search or a detail page yields, the site's
//! addresses, and the check of the session cookie after login.
use vstd::prelude::*;

verus! {

/// Logging in to the site failed.
#[derive(Clone, Copy, Debug, PartialEq, Eq, Structural)]
pub struct GogoInitError;

/// A search on the site failed.
#[derive(Clone, Copy, Debug, PartialEq, Eq, Structural)]
pub struct GogoSearchFailedError;

/// The detail page of a title could not be read.
#[derive(Clone, Copy, Debug, PartialEq, Eq, Structural)]
pub struct GogoFetchingDetailsFailed;

/// The download links of an episode could not be read.
#[derive(Clone, Copy, Debug, PartialEq, Eq, Structural)]
pub struct GogoFailedToFetchDownloadLinks;

impl GogoInitError {
    /// What went wrong, in a sentence.
    pub fn message(&self) -> (r: &'static str)
        ensures
            r@ == "Failed to initialize Gogo"@,
    {
        "Failed to initialize Gogo"
    }
}

impl GogoSearchFailedError {
    /// What went wrong, in a sentence.
    pub fn message(&self) -> (r: &'static str)
        ensures
            r@ == "Failed to search anime on Gogo"@,
    {
        "Failed to search anime on Gogo"
    }
}

impl GogoFetchingDetailsFailed {
    /// What went wrong, in a sentence.
    pub fn message(&self) -> (r: &'static str)
        ensures
            r@ == "Failed to fetch anime details"@,
    {
        "Failed to fetch anime details"
    }
}

impl GogoFailedToFetchDownloadLinks {
    /// What went wrong, in a sentence.
    pub fn message(&self) -> (r: &'static str)
        ensures
            r@ == "Failed to fetch download links for the episode"@,
    {
        "Failed to fetch download links for the episode"
    }
}

/// One search result.
#[derive(Debug)]
pub struct Anime {
    pub name: String,
    pub released: String,
    pub thumbnail: String,
    pub url: String,
}

impl Anime {
    /// A search result from its four texts.
    pub fn new(name: &str, released: &str, thumbnail: &str, url: &str) -> (r: Anime)
        ensures
            r.name@ == name@,
            r.released@ == released@,
            r.thumbnail@ == thumbnail@,
            r.url@ == url@,
    {
        Anime {
            name: String::from_str(name),
            released: String::from_str(released),
            thumbnail: String::from_str(thumbnail),
            url: String::from_str(url),
        }
    }
}

/// What the detail page of a title says, with the addresses of its
/// episodes, first episode first.
#[derive(Debug)]
pub struct AnimeDetailedInfo {
    pub name: String,
    pub thumbnail: String,
    /// (key, value) facts of the page, keys distinct, in page order.
    pub about: Vec<(String, String)>,
    pub episode_links: Vec<String>,
}

impl AnimeDetailedInfo {
    /// The details of a title from the parts of its page.
    pub fn new(
        name: &str,
        thumbnail: &str,
        about: Vec<(String, String)>,
        episode_links: Vec<String>,
    ) -> (r: AnimeDetailedInfo)
        ensures
            r.name@ == name@,
            r.thumbnail@ == thumbnail@,
            r.about == about,
            r.episode_links == episode_links,
    {
        AnimeDetailedInfo {
            name: String::from_str(name),
            thumbnail: String::from_str(thumbnail),
            about,
            episode_links,
        }
    }
}

/// A pair of a cookie header begins at `p`: at the start, or right after a
/// `"; "` separator.
pub open spec fn starts_pair(s: Seq<char>, p: int) -> bool {
    p == 0 || (p >= 2 && s[p - 2] == ';' && s[p - 1] == ' ')
}

/// A name that can stand before the `=` of a pair: it holds no `=` and no
/// `"; "` separator.
pub open spec fn plain_name(name: Seq<char>) -> bool {
    &&& forall|i: int| 0 <= i < name.len() ==> name[i] != '='
    &&& forall|i: int| 0 <= i < name.len() - 1 ==> !(#[trigger] name[i] == ';' && name[i + 1] == ' ')
}

/// The pair that begins at `p` is named `name`.
pub open spec fn pair_named_at(s: Seq<char>, name: Seq<char>, p: int) -> bool {
    &&& 0 <= p
    &&& p + name.len() < s.len()
    &&& starts_pair(s, p)
    &&& s.subrange(p, p + name.len()) == name
    &&& s[p + name.len()] == '='
}

/// The header `s`, pairs `name=value` separated by `"; "`, holds a pair
/// whose text up to its first `=` is `name`.
pub open spec fn has_cookie(s: Seq<char>, name: Seq<char>) -> bool {
    plain_name(name) && exists|p: int| pair_named_at(s, name, p)
}

/// Whether the characters of `s` from `p` on begin with `name`.
fn matches_at(s: &str, p: usize, name: &str) -> (r: bool)
    requires
        p + name@.len() <= s@.len(),
    ensures
        r == (s@.subrange(p as int, p + name@.len()) == name@),
{
    let n = name.unicode_len();
    let len = s.unicode_len();
    let mut i: usize = 0;
    while i < n
        invariant
            n == name@.len(),
            len == s@.len(),
            p + n <= len,
            i <= n,
            forall|j: int| 0 <= j < i ==> s@[p + j] == name@[j],
        decreases n - i,
    {
        if s.get_char(p + i) != name.get_char(i) {
            assert(s@.subrange(p as int, p + n)[i as int] != name@[i as int]);
            return false;
        }
        i = i + 1;
    }
    assert(s@.subrange(p as int, p + n) =~= name@);
    true
}

/// Whether `name` holds no `=` and no `"; "`.
fn is_plain_name(name: &str) -> (r: bool)
    ensures
        r == plain_name(name@),
{
    let n = name.unicode_len();
    let mut i: usize = 0;
    while i < n
        invariant
            n == name@.len(),
            i <= n,
            forall|j: int| 0 <= j < i ==> name@[j] != '=',
            forall|j: int| 0 <= j < i && j < n - 1 ==> !(#[trigger] name@[j] == ';' && name@[j + 1] == ' '),
        decreases n - i,
    {
        let c = name.get_char(i);
        if c == '=' {
            return false;
        }
        if c == ';' && i + 1 < n && name.get_char(i + 1) == ' ' {
            return false;
        }
        i = i + 1;
    }
    true
}

/// Whether the cookie header `header_str` holds a cookie named
/// `cookie_name`.
pub fn cookie_in(header_str: &str, cookie_name: &str) -> (r: bool)
    ensures
        r == has_cookie(header_str@, cookie_name@),
{
    if !is_plain_name(cookie_name) {
        return false;
    }
    let n = cookie_name.unicode_len();
    let len = header_str.unicode_len();
    let mut p: usize = 0;
    while p < len && n < len - p
        invariant
            n == cookie_name@.len(),
            len == header_str@.len(),
            plain_name(cookie_name@),
            forall|q: int| 0 <= q < p ==> !pair_named_at(header_str@, cookie_name@, q),
        decreases len - p,
    {
        let at_start = p == 0 || (p >= 2 && header_str.get_char(p - 2) == ';'
            && header_str.get_char(p - 1) == ' ');
        if at_start && matches_at(header_str, p, cookie_name) && header_str.get_char(p + n)
            == '=' {
            assert(pair_named_at(header_str@, cookie_name@, p as int));
            return true;
        }
        p = p + 1;
    }
    assert forall|q: int| !pair_named_at(header_str@, cookie_name@, q) by {
        if q >= p as int {
            assert(q + n >= len);
        }
    }
    false
}

/// The percent-encoding of the UTF-8 bytes of `s`: every byte but ASCII
/// letters, digits and `-`, `_`, `.`, `~` becomes `%XX`.
pub uninterp spec fn url_encoded(s: Seq<char>) -> Seq<char>;

/// Relies on `urlencoding::encode`, whose result depends on its argument
/// alone.
#[verifier::external_body]
fn encode_component(s: &str) -> (r: String)
    ensures
        r@ == url_encoded(s@),
{
    urlencoding::encode(s).into_owned()
}

/// The site and the account used to log in to it.
#[derive(Debug)]
pub struct GogoAnime {
    pub gogo_base_url: String,
    /// Address of the episode list, with `{ANIME_ID}` and `{END_EP}` to
    /// fill in.
    pub fetch_ep_list_api: String,
    pub password: String,
    pub registered_account_emails: Vec<String>,
}

impl GogoAnime {
    /// A site at `gogo_base_url`, logged in to with `password` and one of
    /// `registered_account_emails`.
    pub fn new(
        gogo_base_url: &str,
        fetch_ep_list_api: &str,
        password: &str,
        registered_account_emails: Vec<String>,
    ) -> (r: GogoAnime)
        ensures
            r.gogo_base_url@ == gogo_base_url@,
            r.fetch_ep_list_api@ == fetch_ep_list_api@,
            r.password@ == password@,
            r.registered_account_emails == registered_account_emails,
    {
        GogoAnime {
            gogo_base_url: String::from_str(gogo_base_url),
            fetch_ep_list_api: String::from_str(fetch_ep_list_api),
            password: String::from_str(password),
            registered_account_emails,
        }
    }

    /// The address of a page of the site, from its path.
    pub fn page_url(&self, path: &str) -> (r: String)
        ensures
            r@ == self.gogo_base_url@ + path@,
    {
        let mut r = self.gogo_base_url.clone();
        r.append(path);
        r
    }

    /// The login page.
    pub fn login_url(&self) -> (r: String)
        ensures
            r@ == self.gogo_base_url@ + "/login.html"@,
    {
        self.page_url("/login.html")
    }

    /// The search page for `query`, percent-encoded.
    pub fn search_url(&self, query: &str) -> (r: String)
        ensures
            r@ == self.gogo_base_url@ + "/search.html?keyword="@ + url_encoded(query@),
    {
        let mut r = self.page_url("/search.html?keyword=");
        let q = encode_component(query);
        r.append(q.as_str());
        r
    }
}

/// `s` without its leading and trailing Unicode white space.
pub uninterp spec fn trimmed(s: Seq<char>) -> Seq<char>;

/// `s` in lower case, character by character by Unicode's rules.
pub uninterp spec fn lower_of(s: Seq<char>) -> Seq<char>;

/// `s` with every match of `from`, left to right, replaced by `to`.
pub uninterp spec fn replaced(s: Seq<char>, from: Seq<char>, to: Seq<char>) -> Seq<char>;

/// Relies on `str::trim`: the result depends on the characters alone.
#[verifier::external_body]
fn trim_str(s: &str) -> (r: String)
    ensures
        r@ == trimmed(s@),
{
    s.trim().to_string()
}

/// Relies on `str::to_lowercase`: the result depends on the characters
/// alone.
#[verifier::external_body]
fn lowercase(s: &str) -> (r: String)
    ensures
        r@ == lower_of(s@),
{
    s.to_lowercase()
}

/// Relies on `str::replace`: the result depends on its three arguments
/// alone.
#[verifier::external_body]
fn replace_all(s: &str, from: &str, to: &str) -> (r: String)
    ensures
        r@ == replaced(s@, from@, to@),
{
    s.replace(from, to)
}

/// The first index at which `pat` occurs in `s`, if any.
pub open spec fn first_match(s: Seq<char>, pat: Seq<char>, i: int) -> bool {
    &&& 0 <= i
    &&& i + pat.len() <= s.len()
    &&& s.subrange(i, i + pat.len()) == pat
    &&& forall|j: int| 0 <= j < i ==> #[trigger] s.subrange(j, j + pat.len()) != pat
}

/// What follows the first `": "` of `s`, or all of `s` if it has none.
pub open spec fn after_label(s: Seq<char>) -> Seq<char> {
    if exists|i: int| first_match(s, seq![':', ' '], i) {
        s.skip((choose|i: int| first_match(s, seq![':', ' '], i)) + 2)
    } else {
        s
    }
}

/// The release date of a search result, from the text of its
/// `Released: 2004` line.
pub fn release_date(raw: &str) -> (r: String)
    ensures
        r@ == after_label(trimmed(raw@)),
{
    let t = trim_str(raw);
    let ghost s = t@;
    let n = t.as_str().unicode_len();
    let mut i: usize = 0;
    while n >= 2 && i < n - 1
        invariant
            s == t@,
            s == trimmed(raw@),
            n == s.len(),
            i <= n,
            forall|j: int| 0 <= j < i ==> #[trigger] s.subrange(j, j + 2) != seq![':', ' '],
        decreases n - i,
    {
        if t.as_str().get_char(i) == ':' && t.as_str().get_char(i + 1) == ' ' {
            assert(s.subrange(i as int, i + 2) =~= seq![':', ' ']);
            assert(first_match(s, seq![':', ' '], i as int));
            proof {
                let k = choose|k: int| first_match(s, seq![':', ' '], k);
                if k < i {
                    assert(s.subrange(k, k + 2) != seq![':', ' ']);
                } else if k > i {
                    assert(s.subrange(i as int, i + 2) != seq![':', ' ']);
                }
                assert(k == i);
                assert(after_label(s) == s.skip(i + 2));
            }
            let rest = t.as_str().substring_char(i + 2, n);
            assert(rest@ =~= s.skip(i + 2));
            return String::from_str(rest);
        }
        assert(s.subrange(i as int, i + 2) != seq![':', ' ']) by {
            if s.subrange(i as int, i + 2) == seq![':', ' '] {
                assert(s.subrange(i as int, i + 2)[0] == s[i as int]);
                assert(s.subrange(i as int, i + 2)[1] == s[i + 1]);
            }
        }
        i = i + 1;
    }
    assert forall|k: int| !first_match(s, seq![':', ' '], k) by {
        if first_match(s, seq![':', ' '], k) {
            assert(k < i);
        }
    }
    t
}

/// The key of a fact of a detail page: its label in lower case, spaces
/// turned into `_` (`Plot Summary` gives `plot_summary`).
pub fn about_key(raw: &str) -> (r: String)
    ensures
        r@ == replaced(lower_of(raw@), " "@, "_"@),
{
    let lower = lowercase(raw);
    replace_all(lower.as_str(), " ", "_")
}

/// The value of a fact of a detail page, without surrounding white space.
pub fn about_value(raw: &str) -> (r: String)
    ensures
        r@ == trimmed(raw@),
{
    trim_str(raw)
}

/// The plot summary of a detail page, from the text of its description
/// block: the space that opens each paragraph is dropped.
pub fn plot_summary(raw: &str) -> (r: String)
    ensures
        r@ == replaced(raw@, "\n\n "@, "\n\n"@),
{
    replace_all(raw, "\n\n ", "\n\n")
}

/// Sets `key` to `value` in a list of pairs with distinct keys: the value
/// of an existing key is replaced, a new key is appended.
pub fn insert_pair(pairs: &mut Vec<(String, String)>, key: String, value: String)
    requires
        distinct_keys(old(pairs)@),
    ensures
        distinct_keys(final(pairs)@),
        key_index(old(pairs)@, key@) < old(pairs)@.len() ==> final(pairs)@ == old(pairs)@.update(
            key_index(old(pairs)@, key@),
            (key, value),
        ),
        key_index(old(pairs)@, key@) == old(pairs)@.len() ==> final(pairs)@ == old(pairs)@.push(
            (key, value),
        ),
{
    let mut i: usize = 0;
    while i < pairs.len()
        invariant
            pairs@ == old(pairs)@,
            distinct_keys(old(pairs)@),
            i <= pairs@.len(),
            forall|j: int| 0 <= j < i ==> #[trigger] pairs@[j].0@ != key@,
        decreases pairs@.len() - i,
    {
        if pairs[i].0 == key {
            assert(key_index(old(pairs)@, key@) == i) by {
                lemma_key_index(old(pairs)@, key@);
            }
            pairs.set(i, (key, value));
            return;
        }
        i = i + 1;
    }
    assert(key_index(old(pairs)@, key@) == old(pairs)@.len()) by {
        lemma_key_index(old(pairs)@, key@);
    }
    pairs.push((key, value));
}

/// No two pairs have the same key.
pub open spec fn distinct_keys(s: Seq<(String, String)>) -> bool {
    forall|i: int, j: int| 0 <= i < j < s.len() ==> #[trigger] s[i].0@ != #[trigger] s[j].0@
}

/// The first index of a pair keyed `k`, or `s.len()`.
pub open spec fn key_index(s: Seq<(String, String)>, k: Seq<char>) -> int
    decreases s.len(),
{
    if s.len() == 0 {
        0
    } else if s[0].0@ == k {
        0
    } else {
        1 + key_index(s.skip(1), k)
    }
}

proof fn lemma_key_index(s: Seq<(String, String)>, k: Seq<char>)
    ensures
        0 <= key_index(s, k) <= s.len(),
        key_index(s, k) < s.len() ==> s[key_index(s, k)].0@ == k,
        forall|j: int| 0 <= j < key_index(s, k) ==> s[j].0@ != k,
    decreases s.len(),
{
    if s.len() > 0 && s[0].0@ != k {
        lemma_key_index(s.skip(1), k);
        assert forall|j: int| 0 <= j < key_index(s, k) implies s[j].0@ != k by {
            if j > 0 {
                assert(s[j] == s.skip(1)[j - 1]);
            }
        }
    }
}

impl GogoAnime {
    /// The address of the episode list of a title: the template with its
    /// `{END_EP}` and `{ANIME_ID}` filled in.
    pub fn episode_list_url(&self, anime_id: &str, end_ep: &str) -> (r: String)
        ensures
            r@ == replaced(
                replaced(self.fetch_ep_list_api@, "{END_EP}"@, end_ep@),
                "{ANIME_ID}"@,
                anime_id@,
            ),
    {
        let with_end = replace_all(self.fetch_ep_list_api.as_str(), "{END_EP}", end_ep);
        replace_all(with_end.as_str(), "{ANIME_ID}", anime_id)
    }

    /// The episode addresses of a title from the links of its episode list,
    /// which runs from the last episode to the first: first episode first,
    /// each link trimmed and put after the site's address.
    pub fn episode_links(&self, hrefs: &Vec<String>) -> (r: Vec<String>)
        ensures
            r@.len() == hrefs@.len(),
            forall|i: int|
                0 <= i < r@.len() ==> #[trigger] r@[i]@ == self.gogo_base_url@ + trimmed(
                    hrefs@[hrefs@.len() - 1 - i]@,
                ),
    {
        let mut r: Vec<String> = Vec::new();
        let n = hrefs.len();
        let mut i: usize = 0;
        while i < n
            invariant
                n == hrefs@.len(),
                i <= n,
                r@.len() == i,
                forall|j: int|
                    0 <= j < i ==> #[trigger] r@[j]@ == self.gogo_base_url@ + trimmed(
                        hrefs@[n - 1 - j]@,
                    ),
            decreases n - i,
        {
            let href = trim_str(hrefs[n - 1 - i].as_str());
            let url = self.page_url(href.as_str());
            r.push(url);
            i = i + 1;
        }
        r
    }
}

} // verus!
