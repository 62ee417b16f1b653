//! What plugins loaded as shared libraries and their host share: where a plugin's library
//! is, and how a listing crosses the C interface.
use vstd::prelude::*;
use crate::text::{lemma_without_absent, lemma_without_char_removes, contains_char, remove_char, views, without_char};

verus! {

/// Why a plugin library could not be used.
#[derive(Debug)]
pub enum Error {
    /// The library could not be opened; the system loader's message.
    OpenLibrary(String),
    /// The library lacks this symbol.
    SymbolNotFound(&'static str),
    /// The plugin answered with neither a listing nor an error, or with both.
    BadResponse,
    /// The plugin reported this error.
    LibraryError(String),
}

/// The library file of a plugin: a path with a dot is a file already; a bare name `n`
/// stands for `libunipac_n_plugin.so`.
pub open spec fn library_file_of(path: Seq<char>) -> Seq<char> {
    if path.contains('.') {
        path
    } else {
        "libunipac_"@ + path + "_plugin.so"@
    }
}

/// The library file of the plugin given as `path`.
pub fn library_file(path: &str) -> (f: String)
    ensures
        f@ == library_file_of(path@),
{
    if contains_char(path, '.') {
        String::from_str(path)
    } else {
        let mut f = String::from_str("libunipac_");
        f.append(path);
        f.append("_plugin.so");
        f
    }
}

/// The library file of a plugin always names a file, and naming it again changes nothing.
pub proof fn lemma_library_file_names_a_file(path: Seq<char>)
    ensures
        library_file_of(path).contains('.'),
        library_file_of(library_file_of(path)) == library_file_of(path),
{
    if !path.contains('.') {
        reveal_strlit("_plugin.so");
        let f = library_file_of(path);
        let k: int = ("libunipac_"@.len() + path.len() + 7) as int;
        assert(f[k] == '.');
    }
}

/// A listing as it crosses the C interface: an error or the package names.
#[derive(Debug)]
pub struct ListPackagesData {
    pub err: Option<String>,
    pub data: Option<Vec<String>>,
}

/// A string as it can cross the C interface: without any NUL character.
pub fn str_rs_to_c(s: String) -> (r: String)
    ensures
        r@ == without_char(s@, '\0'),
        !r@.contains('\0'),
{
    proof { lemma_without_char_removes(s@, '\0'); }
    if contains_char(s.as_str(), '\0') {
        remove_char(s.as_str(), '\0')
    } else {
        proof { lemma_without_absent(s@, '\0'); }
        s
    }
}

/// A text as it can cross the C interface: without NUL characters.
pub open spec fn strip_nul(s: Seq<char>) -> Seq<char> {
    without_char(s, '\0')
}

/// The views of an optional text.
pub open spec fn opt_text(o: Option<String>) -> Option<Seq<char>> {
    match o {
        Some(s) => Some(s@),
        None => None,
    }
}

/// The views of an optional list of texts.
pub open spec fn opt_texts(o: Option<Vec<String>>) -> Option<Seq<Seq<char>>> {
    match o {
        Some(v) => Some(views(v@)),
        None => None,
    }
}

/// The view of a plugin's listing: the names, or the error.
pub open spec fn listing_view(r: Result<Vec<String>, String>) -> Result<Seq<Seq<char>>, Seq<char>> {
    match r {
        Ok(v) => Ok(views(v@)),
        Err(e) => Err(e@),
    }
}

/// What crosses the C interface for a listing: the error alone, or the names alone,
/// each without NULs. The first part is the error, the second the names.
pub open spec fn encode_listing(r: Result<Seq<Seq<char>>, Seq<char>>) -> (Option<Seq<char>>, Option<Seq<Seq<char>>>) {
    match r {
        Ok(v) => (None, Some(v.map_values(|n: Seq<char>| strip_nul(n)))),
        Err(e) => (Some(strip_nul(e)), None),
    }
}

/// What the host makes of a listing received over the C interface.
pub enum Decoded {
    Names(Seq<Seq<char>>),
    LibraryError(Seq<char>),
    BadResponse,
}

/// The host's reading of a received listing with error `err` and names `data`: the names
/// when only they came, the error when only it came, else a bad response.
pub open spec fn decode_listing(err: Option<Seq<char>>, data: Option<Seq<Seq<char>>>) -> Decoded {
    match (data, err) {
        (Some(v), None) => Decoded::Names(v),
        (None, Some(e)) => Decoded::LibraryError(e),
        _ => Decoded::BadResponse,
    }
}

/// The view of the host's reading of a listing.
pub open spec fn decoded_view(r: Result<Vec<String>, Error>) -> Decoded {
    match r {
        Ok(v) => Decoded::Names(views(v@)),
        Err(Error::LibraryError(m)) => Decoded::LibraryError(m@),
        Err(_) => Decoded::BadResponse,
    }
}

/// A listing survives the C interface: names come back without their NULs (unchanged
/// when they hold none), and an error comes back as the library's error without its NULs.
pub proof fn lemma_listing_round_trip(r: Result<Seq<Seq<char>>, Seq<char>>)
    ensures
        decode_listing(encode_listing(r).0, encode_listing(r).1) == match r {
            Ok(v) => Decoded::Names(v.map_values(|n: Seq<char>| strip_nul(n))),
            Err(e) => Decoded::LibraryError(strip_nul(e)),
        },
        (r matches Ok(v) && forall|i: int| 0 <= i < v.len() ==> !(#[trigger] v[i]).contains('\0'))
            ==> decode_listing(encode_listing(r).0, encode_listing(r).1) == Decoded::Names(r->Ok_0),
{
    if let Ok(v) = r {
        if forall|i: int| 0 <= i < v.len() ==> !(#[trigger] v[i]).contains('\0') {
            let m = v.map_values(|n: Seq<char>| strip_nul(n));
            assert forall|i: int| 0 <= i < v.len() implies #[trigger] m[i] == v[i] by {
                lemma_without_absent(v[i], '\0');
            }
            assert(m =~= v);
        }
    }
}

/// The listing a plugin hands over: the error alone, or the names alone, each without NULs.
pub fn call_list_packages(result: Result<Vec<String>, String>) -> (d: ListPackagesData)
    ensures
        (opt_text(d.err), opt_texts(d.data)) == encode_listing(listing_view(result)),
        match result {
            Err(e) => d.data is None && (d.err matches Some(m) && m@ == without_char(e@, '\0')),
            Ok(names) => d.err is None && (d.data matches Some(v) && views(v@) == views(names@).map_values(|n: Seq<char>| without_char(n, '\0'))),
        },
{
    match result {
        Err(err) => ListPackagesData { data: None, err: Some(str_rs_to_c(err)) },
        Ok(names) => {
            let mut out: Vec<String> = Vec::new();
            let mut rest = names;
            let ghost all = views(rest@);
            let ghost mut k: int = 0;
            assert(views(rest@) =~= all.skip(0));
            assert(views(out@) =~= all.take(0).map_values(|n: Seq<char>| without_char(n, '\0')));
            while rest.len() > 0
                invariant
                    0 <= k <= all.len(),
                    k + rest@.len() == all.len(),
                    views(rest@) =~= all.skip(k),
                    views(out@) =~= all.take(k).map_values(|n: Seq<char>| without_char(n, '\0')),
                decreases rest.len(),
            {
                let ghost before = rest@;
                let name = rest.remove(0);
                assert(name == before[0]);
                assert(views(before)[0] == all.skip(k)[0]);
                assert(name@ == all[k]);
                let ghost out_before = views(out@);
                let c = str_rs_to_c(name);
                out.push(c);
                proof {
                    assert(views(out@) =~= out_before.push(without_char(all[k], '\0')));
                    assert(views(rest@) =~= views(before).skip(1));
                    assert(all.take(k + 1) =~= all.take(k).push(all[k]));
                    k = k + 1;
                }
            }
            assert(all.take(k) =~= all);
            ListPackagesData { data: Some(out), err: None }
        },
    }
}

/// What the host makes of a plugin's listing: the names when it gave only them, its error
/// when it gave only that, else a bad response.
pub fn decode_list_packages(data: Option<Vec<String>>, err: Option<String>) -> (r: Result<Vec<String>, Error>)
    ensures
        decoded_view(r) == decode_listing(opt_text(err), opt_texts(data)),
        match (data, err) {
            (Some(v), None) => r matches Ok(w) && w == v,
            (None, Some(e)) => r matches Err(Error::LibraryError(m)) && m == e,
            _ => r matches Err(Error::BadResponse),
        },
{
    match (data, err) {
        (Some(v), None) => Ok(v),
        (None, Some(e)) => Err(Error::LibraryError(e)),
        _ => Err(Error::BadResponse),
    }
}

} // verus!
