//! The addresses of the remote service: the search for a batch of photos,
//! and the delivery of one photo sized for the screen.

use vstd::prelude::*;
use crate::paths::Paths;
use crate::remote_store::{OnlineImage, download_file_name};
use crate::paths::join;
use crate::text::{decimal, lemma_split_nonempty, push_decimal, split_on, string_from_chars};

verus! {

#[verifier::external_type_specification]
#[verifier::external_body]
pub struct ExParseError(url::ParseError);

/// The query pairs of a list of pairs of strings, as text.
pub open spec fn pairs_view(v: Seq<(String, String)>) -> Seq<(Seq<char>, Seq<char>)> {
    v.map_values(|p: (String, String)| (p.0@, p.1@))
}

/// Whether `url` is a URL that the URL library accepts.
pub uninterp spec fn url_parses(url: Seq<char>) -> bool;

/// The decoded query pairs of the URL that `url` writes, in order.
pub uninterp spec fn url_query_pairs(url: Seq<char>) -> Seq<(Seq<char>, Seq<char>)>;

/// The URL that `url` writes, with its query replaced by `pairs`, form-encoded.
pub uninterp spec fn url_with_query(url: Seq<char>, pairs: Seq<(Seq<char>, Seq<char>)>) -> Seq<
    char,
>;

/// Relies on url::Url::parse and Url::query_pairs: the decoded name and
/// value of each pair of the query, in order; parsing, which depends on the
/// text alone, is the only step that fails.
#[verifier::external_body]
fn read_query(url: &str) -> (r: Result<Vec<(String, String)>, url::ParseError>)
    ensures
        r is Ok <==> url_parses(url@),
        r is Ok ==> pairs_view(r.unwrap()@) == url_query_pairs(url@),
{
    let u = url::Url::parse(url)?;
    Ok(u.query_pairs().map(|(k, v)| (k.into_owned(), v.into_owned())).collect())
}

/// Relies on url::Url::parse, Url::query_pairs_mut with Serializer::clear
/// and Serializer::append_pair: the URL with its query made of exactly the
/// given pairs, in order; parsing, which depends on the text alone, is the
/// only step that fails.
#[verifier::external_body]
fn replace_query(url: &str, pairs: &Vec<(String, String)>) -> (r: Result<String, url::ParseError>)
    ensures
        r is Ok <==> url_parses(url@),
        r is Ok ==> r.unwrap()@ == url_with_query(url@, pairs_view(pairs@)),
{
    let mut u = url::Url::parse(url)?;
    {
        let mut q = u.query_pairs_mut();
        q.clear();
        for (k, v) in pairs {
            q.append_pair(k, v);
        }
    }
    Ok(u.to_string())
}

/// An address that the URL library refused.
#[derive(Clone, Copy, Debug, PartialEq, Eq)]
pub enum UrlError {
    Malformed,
}

/// The value of the first pair named `key`, if any.
pub open spec fn first_value(pairs: Seq<(Seq<char>, Seq<char>)>, key: Seq<char>) -> Option<
    Seq<char>,
>
    decreases pairs.len(),
{
    if pairs.len() == 0 {
        None
    } else if pairs[0].0 == key {
        Some(pairs[0].1)
    } else {
        first_value(pairs.drop_first(), key)
    }
}

/// The query of a delivered photo: the identity token kept from the
/// source address, then JPEG at quality 85, the screen's width and height,
/// and a crop that fills the screen around faces and edges.
pub open spec fn delivery_pairs(ixid: Option<Seq<char>>, w: nat, h: nat) -> Seq<
    (Seq<char>, Seq<char>),
> {
    (match ixid {
        Some(v) => seq![("ixid"@, v)],
        None => Seq::empty(),
    }) + seq![
        ("fm"@, "jpg"@),
        ("q"@, "85"@),
        ("w"@, decimal(w)),
        ("h"@, decimal(h)),
        ("fit"@, "crop"@),
        ("crop"@, "faces,edges"@),
    ]
}

fn text_pair(k: &str, v: &str) -> (r: (String, String))
    ensures
        r.0@ == k@,
        r.1@ == v@,
{
    (String::from_str(k), String::from_str(v))
}

fn decimal_string(n: u32) -> (r: String)
    ensures
        r@ == decimal(n as nat),
{
    let mut v: Vec<char> = Vec::new();
    push_decimal(&mut v, n);
    assert(v@ =~= decimal(n as nat));
    string_from_chars(&v)
}

/// The value of the first pair named `key`, if any.
pub fn find_value(pairs: &Vec<(String, String)>, key: &str) -> (r: Option<String>)
    ensures
        r is Some <==> first_value(pairs_view(pairs@), key@) is Some,
        r is Some ==> r.unwrap()@ == first_value(pairs_view(pairs@), key@).unwrap(),
{
    let mut i: usize = 0;
    assert(pairs_view(pairs@).subrange(0, pairs@.len() as int) =~= pairs_view(pairs@));
    while i < pairs.len()
        invariant
            i <= pairs@.len(),
            first_value(pairs_view(pairs@), key@) == first_value(
                pairs_view(pairs@).subrange(i as int, pairs@.len() as int),
                key@,
            ),
        decreases pairs@.len() - i,
    {
        let ghost rest = pairs_view(pairs@).subrange(i as int, pairs@.len() as int);
        assert(rest.drop_first() =~= pairs_view(pairs@).subrange(i + 1, pairs@.len() as int));
        if crate::paths::same_text(pairs[i].0.as_str(), key) {
            return Some(pairs[i].1.clone());
        }
        i = i + 1;
    }
    None
}

/// The query of a delivered photo, as `delivery_pairs` gives it.
pub fn delivery_query(ixid: Option<String>, width: u32, height: u32) -> (r: Vec<(String, String)>)
    ensures
        pairs_view(r@) == delivery_pairs(
            match ixid {
                Some(v) => Some(v@),
                None => None,
            },
            width as nat,
            height as nat,
        ),
{
    let mut r: Vec<(String, String)> = Vec::new();
    match ixid {
        Some(v) => r.push((String::from_str("ixid"), v)),
        None => {},
    }
    r.push(text_pair("fm", "jpg"));
    r.push(text_pair("q", "85"));
    r.push((String::from_str("w"), decimal_string(width)));
    r.push((String::from_str("h"), decimal_string(height)));
    r.push(text_pair("fit", "crop"));
    r.push(text_pair("crop", "faces,edges"));
    assert(pairs_view(r@) =~= delivery_pairs(
        match ixid {
            Some(v) => Some(v@),
            None => None,
        },
        width as nat,
        height as nat,
    ));
    r
}

/// The address of `source` resized for a screen of `width` by `height`:
/// its query is replaced by `delivery_pairs`, keeping its first `ixid`.
pub open spec fn delivery_url(source: Seq<char>, width: nat, height: nat) -> Seq<char> {
    url_with_query(
        source,
        delivery_pairs(first_value(url_query_pairs(source), "ixid"@), width, height),
    )
}

/// The address that delivers the photo at `source` sized for the screen.
pub fn delivery_address(source: &str, width: u32, height: u32) -> (r: Result<String, UrlError>)
    ensures
        r is Ok <==> url_parses(source@),
        r is Ok ==> r.unwrap()@ == delivery_url(source@, width as nat, height as nat),
{
    let pairs = match read_query(source) {
        Ok(p) => p,
        Err(_) => return Err(UrlError::Malformed),
    };
    let ixid = find_value(&pairs, "ixid");
    let query = delivery_query(ixid, width, height);
    match replace_query(source, &query) {
        Ok(u) => Ok(u),
        Err(_) => Err(UrlError::Malformed),
    }
}

/// What fetching a remote photo takes.
#[derive(Debug)]
pub enum DownloadPlan {
    /// The file is there already: nothing is fetched.
    AlreadyThere,
    /// Fetch `url` and write its body to `dest`.
    Fetch { url: String, dest: String },
    /// The stored address is not a URL.
    BadUrl,
}

impl OnlineImage {
    /// How to make sure the photo is on disk: nothing when its file exists,
    /// else a fetch of its delivery address into its file.
    pub fn download_plan(&self, paths: &Paths, exists: bool, screen: (u32, u32)) -> (r:
        DownloadPlan)
        ensures
            exists ==> r is AlreadyThere,
            !exists ==> (r is Fetch <==> url_parses(self.url@)),
            !exists ==> (r is BadUrl <==> !url_parses(self.url@)),
            r matches DownloadPlan::Fetch { url, dest } ==> url@ == delivery_url(
                self.url@,
                screen.0 as nat,
                screen.1 as nat,
            ) && dest@ == join(join(paths.base_dir@, "pictures"@), download_file_name(self.id@)),
    {
        if exists {
            return DownloadPlan::AlreadyThere;
        }
        match delivery_address(self.url.as_str(), screen.0, screen.1) {
            Ok(url) => DownloadPlan::Fetch { url, dest: self.get_path(paths) },
            Err(_) => DownloadPlan::BadUrl,
        }
    }
}


/// The pieces of `s` between commas; an empty text is one empty piece.
pub open spec fn split_commas(s: Seq<char>) -> Seq<Seq<char>> {
    split_on(s, ',')
}

pub open spec fn strings_view(v: Seq<String>) -> Seq<Seq<char>> {
    v.map_values(|t: String| t@)
}

/// The search terms of a comma-separated list, as written.
pub fn split_terms(s: &str) -> (r: Vec<String>)
    ensures
        strings_view(r@) == split_commas(s@),
        r@.len() >= 1,
{
    let n = s.unicode_len();
    let mut pieces: Vec<String> = Vec::new();
    let mut cur: Vec<char> = Vec::new();
    let mut i: usize = 0;
    assert(s@.subrange(0, 0) =~= Seq::<char>::empty());
    assert(strings_view(pieces@) + seq![cur@] =~= split_commas(s@.subrange(0, 0)));
    while i < n
        invariant
            n == s@.len(),
            i <= n,
            strings_view(pieces@) + seq![cur@] == split_commas(s@.subrange(0, i as int)),
        decreases n - i,
    {
        let c = s.get_char(i);
        let ghost before = s@.subrange(0, i as int);
        let ghost after = s@.subrange(0, i + 1);
        assert(after.drop_last() =~= before);
        assert(after.last() == c);
        proof {
            lemma_split_nonempty(before, ',');
        }
        if c == ',' {
            let piece = string_from_chars(&cur);
            pieces.push(piece);
            cur = Vec::new();
            assert(strings_view(pieces@) + seq![cur@] =~= split_commas(after));
        } else {
            cur.push(c);
            assert(strings_view(pieces@) + seq![cur@] =~= split_commas(after));
        }
        i = i + 1;
    }
    assert(s@.subrange(0, n as int) =~= s@);
    let last = string_from_chars(&cur);
    pieces.push(last);
    assert(strings_view(pieces@) =~= split_commas(s@));
    pieces
}

/// One of the comma-separated search terms, drawn at random.
pub fn choose_search_term(terms: &str) -> (r: String)
    ensures
        split_commas(terms@).contains(r@),
{
    let pieces = split_terms(terms);
    let k = crate::selector::random_index(pieces.len());
    let r = pieces[k].clone();
    assert(strings_view(pieces@)[k as int] == r@);
    r
}

/// The search address: the public proxy without a key, the service itself
/// with one.
pub open spec fn search_base(api_key: Seq<char>) -> Seq<char> {
    if api_key.len() == 0 {
        "https://lfnewtab.vercel.app/unsplash/photos/random"@
    } else {
        "https://api.unsplash.com/photos/random"@
    }
}

/// The query of a search for `count` photos: of any subject for an empty
/// term or `random`, else of `term`; with the key when there is one.
pub open spec fn search_pairs(api_key: Seq<char>, term: Seq<char>, count: nat) -> Seq<
    (Seq<char>, Seq<char>),
> {
    (if term.len() == 0 || term == "random"@ {
        seq![("count"@, decimal(count))]
    } else {
        seq![("query"@, term), ("count"@, decimal(count))]
    }) + (if api_key.len() > 0 {
        seq![("client_id"@, api_key)]
    } else {
        Seq::empty()
    })
}

/// The address that asks for `count` photos about `term`.
pub fn search_address(api_key: &str, term: &str, count: u32) -> (r: Result<String, UrlError>)
    ensures
        r is Ok <==> url_parses(search_base(api_key@)),
        r is Ok ==> r.unwrap()@ == url_with_query(
            search_base(api_key@),
            search_pairs(api_key@, term@, count as nat),
        ),
{
    let keyed = api_key.unicode_len() > 0;
    let base = if keyed {
        "https://api.unsplash.com/photos/random"
    } else {
        "https://lfnewtab.vercel.app/unsplash/photos/random"
    };
    let mut pairs: Vec<(String, String)> = Vec::new();
    if term.unicode_len() == 0 || crate::paths::same_text(term, "random") {
        pairs.push((String::from_str("count"), decimal_string(count)));
    } else {
        pairs.push(text_pair("query", term));
        pairs.push((String::from_str("count"), decimal_string(count)));
    }
    if keyed {
        pairs.push(text_pair("client_id", api_key));
    }
    assert(pairs_view(pairs@) =~= search_pairs(api_key@, term@, count as nat));
    match replace_query(base, &pairs) {
        Ok(u) => Ok(u),
        Err(_) => Err(UrlError::Malformed),
    }
}

} // verus!
