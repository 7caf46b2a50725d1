//! Where the lockfile is looked for. Paths are texts with `/` between
//! their parts.

use crate::config::DaemonConfig;
use crate::text::{append_chars, chars_of, has_prefix};
use vstd::prelude::*;
use vstd::string::StringExecFns;

verus! {

/// The platform whose default places are searched.
#[derive(Debug, Clone, Copy, PartialEq, Eq, Structural)]
pub enum Platform {
    Windows,
    MacOs,
    Linux,
    /// Any other system: it has no default places.
    Other,
}

/// The path `rel` below the directory `base`: `rel` itself if it starts at
/// the root; else `base`, a separator unless `base` is empty or ends with
/// one, and `rel`.
pub open spec fn joined(base: Seq<char>, rel: Seq<char>) -> Seq<char> {
    if rel.len() > 0 && rel[0] == '/' {
        rel
    } else if base.len() == 0 || base.last() == '/' {
        base + rel
    } else {
        base + seq!['/'] + rel
    }
}

/// Joins a path to a directory.
pub fn join_path(base: &str, rel: &str) -> (res: String)
    ensures
        res@ == joined(base@, rel@),
{
    let head = chars_of(base);
    let tail = chars_of(rel);
    if tail.len() > 0 && tail[0] == '/' {
        return rel.to_owned();
    }
    let mut out = base.to_owned();
    if head.len() > 0 && head[head.len() - 1] != '/' {
        crate::text::push_char(&mut out, '/');
    }
    out.append(rel);
    out
}

/// The home directory: the first of the two settings that is present.
pub fn home_dir(home: Option<String>, user_profile: Option<String>) -> (res: Option<String>)
    ensures
        res == (if home is Some {
            home
        } else {
            user_profile
        }),
{
    if home.is_some() {
        home
    } else {
        user_profile
    }
}

/// A path with a leading `~` expanded: `~` alone is the home directory,
/// `~/rest` is `rest` below the home directory; any other path, and every
/// path where no home directory is known, stays as it is.
pub open spec fn normalized_path(path: Seq<char>, home: Option<Seq<char>>) -> Seq<char> {
    match home {
        Some(home) => if path == seq!['~'] {
            home
        } else if has_prefix(path, seq!['~', '/']) {
            joined(home, path.skip(2))
        } else {
            path
        },
        None => path,
    }
}

/// Expands a leading `~` against the home directory.
pub fn normalize_path(path: String, home: Option<&str>) -> (res: String)
    ensures
        res@ == normalized_path(
            path@,
            match home {
                Some(home) => Some(home@),
                None => None,
            },
        ),
{
    let home = match home {
        Some(home) => home,
        None => {
            return path;
        },
    };
    let chars = chars_of(path.as_str());
    if chars.len() == 1 && chars[0] == '~' {
        assert(chars@ == seq!['~']);
        return home.to_owned();
    }
    if chars.len() >= 2 && chars[0] == '~' && chars[1] == '/' {
        assert(chars@.take(2) == seq!['~', '/']);
        let mut rest = String::new();
        append_chars(&mut rest, &chars, 2, chars.len());
        assert(chars@.subrange(2, chars@.len() as int) == chars@.skip(2));
        return join_path(home, rest.as_str());
    }
    proof {
        if has_prefix(chars@, seq!['~', '/']) {
            assert(chars@.take(2)[0] == '~' && chars@.take(2)[1] == '/');
        }
        if chars@ == seq!['~'] {
            assert(chars@.len() == 1 && chars@[0] == '~');
        }
    }
    path
}

/// The default places of the lockfile on a platform, in the order in which
/// they are tried. Places below the home directory, or below the local
/// application data directory on Windows, are left out where that directory
/// is not known.
pub open spec fn default_paths(
    platform: Platform,
    home: Option<Seq<char>>,
    local_app_data: Option<Seq<char>>,
) -> Seq<Seq<char>> {
    match platform {
        Platform::Windows => {
            let fixed = seq!["C:\\Riot Games\\League of Legends\\lockfile"@];
            match local_app_data {
                Some(base) => seq![
                    joined(
                        joined(joined(joined(base, "Riot Games"@), "Riot Client"@), "Config"@),
                        "lockfile"@,
                    ),
                    joined(joined(joined(base, "Riot Games"@), "League of Legends"@), "lockfile"@),
                ] + fixed,
                None => fixed,
            }
        },
        Platform::MacOs => {
            let fixed = seq!["/Applications/League of Legends.app/Contents/LoL/lockfile"@];
            match home {
                Some(home) => seq![
                    joined(
                        joined(
                            joined(joined(home, "Library"@), "Application Support"@),
                            "League of Legends"@,
                        ),
                        "lockfile"@,
                    ),
                ] + fixed,
                None => fixed,
            }
        },
        Platform::Linux => match home {
            Some(home) => seq![
                joined(joined(joined(home, ".config"@), "League of Legends"@), "lockfile"@),
                joined(
                    joined(joined(joined(home, ".local"@), "share"@), "league-of-legends"@),
                    "lockfile"@,
                ),
                joined(joined(joined(home, "Games"@), "league-of-legends"@), "lockfile"@),
            ],
            None => Seq::empty(),
        },
        Platform::Other => Seq::empty(),
    }
}

/// The texts of a sequence of paths, in order.
pub open spec fn path_texts(paths: Seq<String>) -> Seq<Seq<char>> {
    paths.map_values(|path: String| path@)
}

/// The text of an optional string slice.
pub open spec fn opt_str(text: Option<&str>) -> Option<Seq<char>> {
    match text {
        Some(text) => Some(text@),
        None => None,
    }
}

/// Joins three parts to a directory, one below the other.
fn join3(base: &str, a: &str, b: &str, c: &str) -> (res: String)
    ensures
        res@ == joined(joined(joined(base@, a@), b@), c@),
{
    let first = join_path(base, a);
    let second = join_path(first.as_str(), b);
    join_path(second.as_str(), c)
}

/// Joins four parts to a directory, one below the other.
fn join4(base: &str, a: &str, b: &str, c: &str, d: &str) -> (res: String)
    ensures
        res@ == joined(joined(joined(joined(base@, a@), b@), c@), d@),
{
    let third = join3(base, a, b, c);
    join_path(third.as_str(), d)
}

/// The default places of the lockfile on a platform.
pub fn default_lockfile_paths(
    platform: Platform,
    home: Option<&str>,
    local_app_data: Option<&str>,
) -> (res: Vec<String>)
    ensures
        path_texts(res@) == default_paths(platform, opt_str(home), opt_str(local_app_data)),
{
    let mut paths: Vec<String> = Vec::new();
    match platform {
        Platform::Windows => {
            if let Some(base) = local_app_data {
                paths.push(join4(base, "Riot Games", "Riot Client", "Config", "lockfile"));
                paths.push(join3(base, "Riot Games", "League of Legends", "lockfile"));
            }
            paths.push(String::from_str("C:\\Riot Games\\League of Legends\\lockfile"));
        },
        Platform::MacOs => {
            if let Some(home) = home {
                paths.push(
                    join4(home, "Library", "Application Support", "League of Legends", "lockfile"),
                );
            }
            paths.push(
                String::from_str("/Applications/League of Legends.app/Contents/LoL/lockfile"),
            );
        },
        Platform::Linux => {
            if let Some(home) = home {
                paths.push(join3(home, ".config", "League of Legends", "lockfile"));
                paths.push(join4(home, ".local", "share", "league-of-legends", "lockfile"));
                paths.push(join3(home, "Games", "league-of-legends", "lockfile"));
            }
        },
        Platform::Other => {},
    }
    assert(path_texts(paths@) =~= default_paths(platform, opt_str(home), opt_str(local_app_data)));
    paths
}

/// The paths without repetitions: of equal paths the first stays.
pub open spec fn deduped(paths: Seq<Seq<char>>) -> Seq<Seq<char>>
    decreases paths.len(),
{
    if paths.len() == 0 {
        Seq::empty()
    } else {
        let before = deduped(paths.drop_last());
        if before.contains(paths.last()) {
            before
        } else {
            before.push(paths.last())
        }
    }
}

/// The override of the configuration, if it is set.
pub open spec fn configured(config: DaemonConfig) -> Seq<Seq<char>> {
    match config.lcu_lockfile {
        Some(path) => seq![path@],
        None => Seq::empty(),
    }
}

/// The override of the environment, if it is set and not empty.
pub open spec fn from_environment(env_override: Option<Seq<char>>) -> Seq<Seq<char>> {
    match env_override {
        Some(path) => if path.len() > 0 {
            seq![path]
        } else {
            Seq::empty()
        },
        None => Seq::empty(),
    }
}

/// Each path with its leading `~` expanded.
pub open spec fn all_normalized(paths: Seq<Seq<char>>, home: Option<Seq<char>>) -> Seq<Seq<char>> {
    paths.map_values(|path: Seq<char>| normalized_path(path, home))
}

/// The places where the lockfile is looked for, in order: the override of
/// the configuration, the override of the environment, then the default
/// places; each with a leading `~` expanded, and none twice.
pub open spec fn candidates(
    config: DaemonConfig,
    env_override: Option<Seq<char>>,
    home: Option<Seq<char>>,
    defaults: Seq<Seq<char>>,
) -> Seq<Seq<char>> {
    deduped(all_normalized(configured(config) + from_environment(env_override) + defaults, home))
}

/// Whether `paths` holds a path of the given text.
fn holds(paths: &Vec<String>, path: &String) -> (res: bool)
    ensures
        res == path_texts(paths@).contains(path@),
{
    let mut i: usize = 0;
    while i < paths.len()
        invariant
            0 <= i <= paths.len(),
            forall|k: int| 0 <= k < i ==> #[trigger] path_texts(paths@)[k] != path@,
        decreases paths.len() - i,
    {
        if paths[i] == *path {
            assert(path_texts(paths@)[i as int] == path@);
            return true;
        }
        assert(path_texts(paths@)[i as int] != path@);
        i = i + 1;
    }
    false
}

/// Adds the normalized form of `path` to the candidates unless it is among
/// them.
fn push_candidate(found: &mut Vec<String>, path: String, home: Option<&str>, Ghost(seen): Ghost<
    Seq<Seq<char>>,
>)
    requires
        path_texts(old(found)@) == deduped(all_normalized(seen, opt_str(home))),
    ensures
        path_texts(final(found)@) == deduped(all_normalized(seen.push(path@), opt_str(home))),
{
    let normalized = normalize_path(path, home);
    proof {
        let all = all_normalized(seen.push(path@), opt_str(home));
        assert(all.drop_last() == all_normalized(seen, opt_str(home)));
        assert(all.last() == normalized@);
    }
    if !holds(found, &normalized) {
        assert(path_texts(found@.push(normalized)) == path_texts(found@).push(normalized@));
        found.push(normalized);
    }
}

/// Lists the places where the lockfile is looked for. `env_override` is the
/// override of the environment, `home` the home directory, and `defaults`
/// the default places of the platform.
pub fn lockfile_candidates(
    config: &DaemonConfig,
    env_override: Option<&str>,
    home: Option<&str>,
    defaults: &Vec<String>,
) -> (res: Vec<String>)
    ensures
        path_texts(res@) == candidates(
            *config,
            opt_str(env_override),
            opt_str(home),
            path_texts(defaults@),
        ),
{
    let mut found: Vec<String> = Vec::new();
    let ghost mut seen: Seq<Seq<char>> = Seq::empty();
    proof {
        assert(path_texts(found@) == Seq::<Seq<char>>::empty());
        assert(all_normalized(seen, opt_str(home)) == Seq::<Seq<char>>::empty());
    }
    if let Some(path) = &config.lcu_lockfile {
        push_candidate(&mut found, path.clone(), home, Ghost(seen));
        proof {
            seen = seen.push(path@);
        }
    }
    assert(seen == configured(*config));
    if let Some(path) = env_override {
        let chars = chars_of(path);
        if chars.len() > 0 {
            push_candidate(&mut found, path.to_owned(), home, Ghost(seen));
            proof {
                seen = seen.push(path@);
            }
        }
    }
    assert(seen == configured(*config) + from_environment(opt_str(env_override)));
    let ghost head = seen;
    let mut i: usize = 0;
    assert(path_texts(defaults@).take(0) == Seq::<Seq<char>>::empty());
    assert(head + Seq::<Seq<char>>::empty() == head);
    while i < defaults.len()
        invariant
            0 <= i <= defaults.len(),
            seen == head + path_texts(defaults@).take(i as int),
            path_texts(found@) == deduped(all_normalized(seen, opt_str(home))),
        decreases defaults.len() - i,
    {
        push_candidate(&mut found, defaults[i].clone(), home, Ghost(seen));
        proof {
            seen = seen.push(defaults@[i as int]@);
            assert(path_texts(defaults@).take(i + 1) == path_texts(defaults@).take(i as int).push(
                defaults@[i as int]@,
            ));
        }
        i = i + 1;
    }
    assert(path_texts(defaults@).take(defaults@.len() as int) == path_texts(defaults@));
    found
}

} // verus!
