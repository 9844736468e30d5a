//! The token with which the permission of the last session can be restored, and the file it
//! is kept in.

use crate::text::{lemma_trimmed_has_bare_ends, trim, trimmed, white_space};
use vstd::prelude::*;
use vstd::string::{StrSliceExecFns, StringExecFns};

verus! {

/// `base` with the relative path `name` below it.
pub open spec fn joined_path(base: Seq<char>, name: Seq<char>) -> Seq<char> {
    if base.len() == 0 || base.last() == '/' {
        base + name
    } else {
        base.push('/') + name
    }
}

/// The path of the token file below a cache directory.
pub open spec fn token_file_below(cache_dir: Seq<char>) -> Seq<char> {
    joined_path(joined_path(cache_dir, "lan-mouse"@), "remote-desktop.token"@)
}

/// The path of the token file, given the cache directory or else the home.
pub open spec fn token_file_path(cache_dir: Option<Seq<char>>, home: Option<Seq<char>>) -> Seq<
    char,
> {
    match cache_dir {
        Some(cache_dir) => token_file_below(cache_dir),
        None => token_file_below(joined_path(home->0, ".cache"@)),
    }
}

/// Goes to the relative path `name` below `path`.
fn join(path: &mut String, name: &str)
    ensures
        final(path)@ == joined_path(old(path)@, name@),
{
    proof {
        reveal_strlit("/");
    }
    let len: usize = path.as_str().unicode_len();
    if len > 0 && path.as_str().get_char(len - 1) != '/' {
        path.append("/");
        assert(path@ =~= old(path)@.push('/'));
    }
    path.append(name);
}

/// Get the path to the RemoteDesktop token file
///
/// The cache directory is the value of `XDG_CACHE_HOME` if it has one, and else `.cache`
/// below the value of `HOME`, which it must then have.
pub fn get_token_file_path(xdg_cache_home: Option<String>, home: Option<String>) -> (path: String)
    requires
        xdg_cache_home is Some || home is Some,
    ensures
        path@ == token_file_below(
            match xdg_cache_home {
                Some(cache_dir) => cache_dir@,
                None => joined_path(home->0@, ".cache"@),
            },
        ),
        path@ == token_file_path(
            match xdg_cache_home {
                Some(cache_dir) => Some(cache_dir@),
                None => None,
            },
            match home {
                Some(home) => Some(home@),
                None => None,
            },
        ),
{
    let mut path = match xdg_cache_home {
        Some(cache_dir) => cache_dir,
        None => {
            let mut cache_dir = home.unwrap();
            join(&mut cache_dir, ".cache");
            cache_dir
        },
    };
    join(&mut path, "lan-mouse");
    join(&mut path, "remote-desktop.token");
    path
}

/// Read the RemoteDesktop token, given the content of its file if that could be read
pub fn read_token(content: Option<String>) -> (token: Option<String>)
    ensures
        token is Some <==> content is Some,
        token matches Some(text) ==> text@ == trimmed(content->0@),
{
    match content {
        Some(content) => Some(trim(content.as_str()).to_owned()),
        None => None,
    }
}

/// A token that starts and ends with something other than white space is read back as it was
/// written.
pub proof fn law_written_token_is_read_back(token: Seq<char>)
    requires
        token.len() > 0 ==> !white_space(token.first()) && !white_space(token.last()),
    ensures
        trimmed(token) == token,
{
}

/// What was read as a token and is written again is read as the same token.
pub proof fn law_read_token_is_stable(content: Seq<char>)
    ensures
        trimmed(trimmed(content)) == trimmed(content),
{
    lemma_trimmed_has_bare_ends(content);
    law_written_token_is_read_back(trimmed(content));
}

/// A path below a directory is the directory, a slash if it does not end with one already, and
/// the name.
pub proof fn law_paths_are_joined_by_one_slash(base: Seq<char>, name: Seq<char>)
    ensures
        joined_path(base.push('/'), name) == base.push('/') + name,
        base.len() > 0 && base.last() != '/' ==> joined_path(base, name) == joined_path(
            base.push('/'),
            name,
        ),
        base.len() == 0 ==> joined_path(base, name) == name,
{
    if base.len() == 0 {
        assert(base + name =~= name);
    }
}

/// The token file is the same one below every cache directory, and stands two levels down.
pub proof fn law_token_file_stands_below_the_cache(cache_dir: Seq<char>)
    requires
        cache_dir.len() > 0,
        cache_dir.last() != '/',
    ensures
        token_file_below(cache_dir) == cache_dir + "/lan-mouse/remote-desktop.token"@,
        token_file_below(cache_dir.push('/')) == token_file_below(cache_dir),
        token_file_below(Seq::empty()) == "lan-mouse/remote-desktop.token"@,
{
    reveal_strlit("lan-mouse");
    reveal_strlit("remote-desktop.token");
    reveal_strlit("/lan-mouse/remote-desktop.token");
    reveal_strlit("lan-mouse/remote-desktop.token");
    assert(token_file_below(cache_dir) =~= cache_dir + "/lan-mouse/remote-desktop.token"@);
    assert(token_file_below(Seq::empty()) =~= "lan-mouse/remote-desktop.token"@);
}

/// The directory for cached files is given, or else it is the hidden directory below the home.
pub proof fn law_cache_is_given_or_below_the_home(home: Seq<char>, given: Seq<char>)
    requires
        home.len() > 0,
        home.last() != '/',
    ensures
        token_file_path(Some(given), None) == token_file_below(given),
        token_file_path(Some(given), Some(home)) == token_file_below(given),
        token_file_path(None, Some(home)) == home
            + "/.cache/lan-mouse/remote-desktop.token"@,
{
    reveal_strlit(".cache");
    reveal_strlit("/lan-mouse/remote-desktop.token");
    reveal_strlit("/.cache/lan-mouse/remote-desktop.token");
    let cache_dir = joined_path(home, ".cache"@);
    law_token_file_stands_below_the_cache(cache_dir);
    assert(token_file_path(None, Some(home)) =~= home + "/.cache/lan-mouse/remote-desktop.token"@);
}

} // verus!
