//! System information: the user's names and initials, the host names, the
//! operating system's name and version, and the avatar images.
use vstd::prelude::*;
use crate::order::{sort_by_key, stable_sort};
use crate::text::{
    all_ascii, append, ascii_upper, chars_of, decimal, decimal_of, eq_str, lines, lines_of, lowercase, lowercase_of,
    seq_eq, split, split_on, split_ws, starts_with, string_from, string_of, string_views,
    strip_prefix_str, trim, trim_char, trim_char_exec, trimmed, uppercase, uppercase_of, views,
    words, lemma_split_nonempty, is_ws, lemma_words_nonempty,
};

verus! {

/// User information
#[derive(Debug, Clone)]
pub struct UserInfo {
    /// Username
    pub username: String,
    /// Full name (from GECOS field)
    pub full_name: Option<String>,
    /// Home directory
    pub home_dir: String,
    /// User ID
    pub uid: u32,
    /// Primary group ID
    pub gid: u32,
    /// Shell
    pub shell: String,
}

/// System information
#[derive(Debug, Clone)]
pub struct SystemInfo {
    /// Hostname
    pub hostname: String,
    /// Pretty hostname (if set)
    pub pretty_hostname: Option<String>,
    /// OS name
    pub os_name: String,
    /// OS version
    pub os_version: Option<String>,
    /// Kernel version
    pub kernel_version: String,
    /// Architecture
    pub architecture: String,
}

/// Avatar configuration
#[derive(Debug, Clone)]
pub struct AvatarConfig {
    /// Path to the current avatar image
    pub path: Option<String>,
    /// Available avatar presets
    pub presets: Vec<String>,
}

/// System backend
pub struct SystemBackend;

/// The view of an optional string.
pub open spec fn opt_s(o: Option<String>) -> Option<Seq<char>> {
    match o {
        Some(s) => Some(s@),
        None => None,
    }
}

/// The view of an optional string slice.
pub open spec fn opt_str(o: Option<&str>) -> Option<Seq<char>> {
    match o {
        Some(s) => Some(s@),
        None => None,
    }
}

/// The full name that the `/etc/passwd` lines `ls` give `username`: the
/// part before the first comma of the fifth field of the first line of the
/// user with a non-empty one.
pub open spec fn gecos_name(ls: Seq<Seq<char>>, username: Seq<char>) -> Option<Seq<char>>
    decreases ls.len(),
{
    if ls.len() == 0 {
        None
    } else {
        let f = split(ls[0], ':');
        if f.len() >= 5 && f[0] == username && split(f[4], ',')[0].len() > 0 {
            Some(split(f[4], ',')[0])
        } else {
            gecos_name(ls.drop_first(), username)
        }
    }
}

/// A value without the double quotes, then the single quotes, around it.
pub open spec fn unquoted(v: Seq<char>) -> Seq<char> {
    trim_char(trim_char(v, '"'), '\'')
}

/// The pretty host name of the first `PRETTY_HOSTNAME=` line of
/// `/etc/machine-info` with a non-empty value.
pub open spec fn pretty_hostname_of(ls: Seq<Seq<char>>) -> Option<Seq<char>>
    decreases ls.len(),
{
    if ls.len() == 0 {
        None
    } else if starts_with(ls[0], "PRETTY_HOSTNAME="@) && unquoted(ls[0].skip(16)).len() > 0 {
        Some(unquoted(ls[0].skip(16)))
    } else {
        pretty_hostname_of(ls.drop_first())
    }
}

/// The operating system's name and version after the lines `ls` of
/// `/etc/os-release`: `NAME=` sets the name, `VERSION=` the version, and
/// `PRETTY_NAME=` the name while it is still `Linux`.
pub open spec fn os_info_of(ls: Seq<Seq<char>>) -> (Seq<char>, Option<Seq<char>>)
    decreases ls.len(),
{
    if ls.len() == 0 {
        ("Linux"@, None)
    } else {
        let prev = os_info_of(ls.drop_last());
        let l = ls.last();
        if starts_with(l, "NAME="@) {
            (unquoted(l.skip(5)), prev.1)
        } else if starts_with(l, "VERSION="@) {
            (prev.0, Some(unquoted(l.skip(8))))
        } else if starts_with(l, "PRETTY_NAME="@) && prev.0 == "Linux"@ {
            (unquoted(l.skip(12)), prev.1)
        } else {
            prev
        }
    }
}

/// The first characters of the first two words of `name`.
pub open spec fn initial_letters(name: Seq<char>) -> Seq<char> {
    let w = words(name);
    if w.len() == 0 {
        Seq::<char>::empty()
    } else if w.len() == 1 {
        seq![w[0][0]]
    } else {
        seq![w[0][0], w[1][0]]
    }
}

/// The name that initials are taken from: the full name, else the user
/// name, else `U`.
pub open spec fn initials_source(full_name: Option<Seq<char>>, username: Option<Seq<char>>) -> Seq<
    char,
> {
    match full_name {
        Some(f) => f,
        None => match username {
            Some(u) => u,
            None => "U"@,
        },
    }
}

/// The words of a name are never empty.
proof fn lemma_words_nonempty_each(s: Seq<char>)
    ensures
        forall|i: int| 0 <= i < words(s).len() ==> #[trigger] words(s)[i].len() > 0,
    decreases s.len(),
{
    if s.len() > 0 {
        lemma_words_nonempty_each(s.drop_last());
        let prev = words(s.drop_last());
        let c = s.last();
        assert forall|i: int| 0 <= i < words(s).len() implies #[trigger] words(s)[i].len() > 0 by {
            if is_ws(c) {
            } else if s.len() >= 2 && !is_ws(s[s.len() - 2]) {
                lemma_words_nonempty(s.drop_last());
                if i < prev.len() - 1 {
                    assert(words(s)[i] == prev[i]);
                } else {
                    assert(words(s)[i] == prev.last().push(c));
                }
            } else {
                if i < prev.len() {
                    assert(words(s)[i] == prev[i]);
                }
            }
        }
    }
}

/// The file name extensions of avatar images.
pub open spec fn avatar_extension(ext_lower: Seq<char>) -> bool {
    ext_lower == "png"@ || ext_lower == "jpg"@ || ext_lower == "jpeg"@ || ext_lower == "svg"@
}

/// A file that may be an avatar preset: its path and its extension.
#[derive(Debug, Clone)]
pub struct ImageCandidate {
    pub path: String,
    pub extension: Option<String>,
}

/// The paths of the candidates whose extension, in lower case, is that of
/// an avatar image, in order.
pub open spec fn avatar_paths(c: Seq<ImageCandidate>) -> Seq<Seq<char>>
    decreases c.len(),
{
    if c.len() == 0 {
        Seq::<Seq<char>>::empty()
    } else {
        let prev = avatar_paths(c.drop_last());
        match c.last().extension {
            Some(e) => if avatar_extension(lowercase(e@)) {
                prev.push(c.last().path@)
            } else {
                prev
            },
            None => prev,
        }
    }
}

fn unquote(v: &[char]) -> (r: Vec<char>)
    ensures
        r@ == unquoted(v@),
{
    let a = trim_char_exec(v, '"');
    trim_char_exec(a.as_slice(), '\'')
}

impl SystemBackend {
    /// The user's information: the name from `USER`, else `LOGNAME`, else
    /// the login name of the process; the full name from `/etc/passwd`; the
    /// home directory, else `/`; the shell from `SHELL`, else `/bin/sh`.
    pub fn user_info(
        user_var: Option<&str>,
        logname_var: Option<&str>,
        login_name: &str,
        home: Option<&str>,
        uid: u32,
        gid: u32,
        passwd: Option<&str>,
        shell_var: Option<&str>,
    ) -> (r: UserInfo)
        ensures
            r.username@ == (match user_var {
                Some(u) => u@,
                None => match logname_var {
                    Some(l) => l@,
                    None => login_name@,
                },
            }),
            opt_s(r.full_name) == (match passwd {
                Some(p) => gecos_name(lines(p@), r.username@),
                None => None,
            }),
            r.home_dir@ == (match home {
                Some(h) => h@,
                None => "/"@,
            }),
            r.uid == uid,
            r.gid == gid,
            r.shell@ == (match shell_var {
                Some(s) => s@,
                None => "/bin/sh"@,
            }),
    {
        let username = match user_var {
            Some(u) => string_from(u),
            None => match logname_var {
                Some(l) => string_from(l),
                None => string_from(login_name),
            },
        };
        let full_name = match passwd {
            Some(p) => Self::get_gecos_name(p, username.as_str()),
            None => None,
        };
        UserInfo {
            username,
            full_name,
            home_dir: match home {
                Some(h) => string_from(h),
                None => string_from("/"),
            },
            uid,
            gid,
            shell: match shell_var {
                Some(s) => string_from(s),
                None => string_from("/bin/sh"),
            },
        }
    }

    /// The full name that `/etc/passwd` gives `username`.
    pub fn get_gecos_name(passwd: &str, username: &str) -> (r: Option<String>)
        ensures
            opt_s(r) == gecos_name(lines(passwd@), username@),
    {
        let ls = lines_of(chars_of(passwd).as_slice());
        let user = chars_of(username);
        let mut i: usize = 0;
        assert(views(ls@).skip(0) =~= views(ls@));
        while i < ls.len()
            invariant
                i <= ls@.len(),
                views(ls@) == lines(passwd@),
                user@ == username@,
                gecos_name(lines(passwd@), username@) == gecos_name(
                    views(ls@).skip(i as int),
                    username@,
                ),
            decreases ls@.len() - i,
        {
            assert(views(ls@).skip(i as int)[0] == ls@[i as int]@);
            assert(views(ls@).skip(i as int).drop_first() =~= views(ls@).skip(i + 1));
            let f = split_on(ls[i].as_slice(), ':');
            if f.len() >= 5 {
                assert(views(f@)[0] == f@[0]@);
                assert(views(f@)[4] == f@[4]@);
                if seq_eq(f[0].as_slice(), user.as_slice()) {
                    let parts = split_on(f[4].as_slice(), ',');
                    proof {
                        lemma_split_nonempty(f@[4]@, ',');
                    }
                    assert(views(parts@)[0] == parts@[0]@);
                    if parts[0].len() > 0 {
                        return Some(string_of(parts[0].as_slice()));
                    }
                }
            }
            i = i + 1;
        }
        None
    }

    /// The host name: the trimmed content of `/etc/hostname` when it is not
    /// empty, else the host name of the system, else `localhost`.
    pub fn get_hostname(hostname_file: Option<&str>, system_hostname: Option<&str>) -> (r: String)
        ensures
            r@ == (match hostname_file {
                Some(c) if trim(c@).len() > 0 => trim(c@),
                _ => match system_hostname {
                    Some(h) => h@,
                    None => "localhost"@,
                },
            }),
    {
        if let Some(c) = hostname_file {
            let t = trimmed(chars_of(c).as_slice());
            if t.len() > 0 {
                return string_of(t.as_slice());
            }
        }
        match system_hostname {
            Some(h) => string_from(h),
            None => string_from("localhost"),
        }
    }

    /// The pretty host name that `/etc/machine-info` sets.
    pub fn get_pretty_hostname(machine_info: Option<&str>) -> (r: Option<String>)
        ensures
            opt_s(r) == (match machine_info {
                Some(c) => pretty_hostname_of(lines(c@)),
                None => None,
            }),
    {
        let c = match machine_info {
            Some(c) => c,
            None => {
                return None;
            },
        };
        let ls = lines_of(chars_of(c).as_slice());
        let mut i: usize = 0;
        assert(views(ls@).skip(0) =~= views(ls@));
        while i < ls.len()
            invariant
                i <= ls@.len(),
                views(ls@) == lines(c@),
                machine_info == Some(c),
                pretty_hostname_of(lines(c@)) == pretty_hostname_of(views(ls@).skip(i as int)),
            decreases ls@.len() - i,
        {
            assert(views(ls@).skip(i as int)[0] == ls@[i as int]@);
            assert(views(ls@).skip(i as int).drop_first() =~= views(ls@).skip(i + 1));
            proof {
                reveal_strlit("PRETTY_HOSTNAME=");
            }
            if let Some(v) = strip_prefix_str(ls[i].as_slice(), "PRETTY_HOSTNAME=") {
                let u = unquote(v.as_slice());
                let ghost first = views(ls@).skip(i as int)[0];
                assert(v@ == first.skip(16));
                assert(starts_with(first, "PRETTY_HOSTNAME="@));
                if u.len() > 0 {
                    assert(pretty_hostname_of(views(ls@).skip(i as int)) == Some(unquoted(first.skip(16))));
                    return Some(string_of(u.as_slice()));
                }
            }
            i = i + 1;
        }
        None
    }

    /// The operating system's name and version that `/etc/os-release`
    /// gives; `Linux` without a version when it cannot be read.
    pub fn get_os_info(os_release: Option<&str>) -> (r: (String, Option<String>))
        ensures
            (r.0@, opt_s(r.1)) == (match os_release {
                Some(c) => os_info_of(lines(c@)),
                None => ("Linux"@, None),
            }),
    {
        let c = match os_release {
            Some(c) => c,
            None => {
                return (string_from("Linux"), None);
            },
        };
        let ls = lines_of(chars_of(c).as_slice());
        let mut name = chars_of("Linux");
        let mut version: Option<Vec<char>> = None;
        let mut i: usize = 0;
        assert(views(ls@).take(0) =~= Seq::<Seq<char>>::empty());
        while i < ls.len()
            invariant
                i <= ls@.len(),
                views(ls@) == lines(c@),
                os_info_of(views(ls@).take(i as int)) == (
                    name@,
                    match version {
                        Some(v) => Some(v@),
                        None => None,
                    },
                ),
            decreases ls@.len() - i,
        {
            assert(views(ls@).take(i + 1).drop_last() =~= views(ls@).take(i as int));
            assert(views(ls@)[i as int] == ls@[i as int]@);
            let l = ls[i].as_slice();
            proof {
                reveal_strlit("NAME=");
                reveal_strlit("VERSION=");
                reveal_strlit("PRETTY_NAME=");
                reveal_strlit("Linux");
            }
            if let Some(v) = strip_prefix_str(l, "NAME=") {
                name = unquote(v.as_slice());
            } else if let Some(v) = strip_prefix_str(l, "VERSION=") {
                version = Some(unquote(v.as_slice()));
            } else if let Some(v) = strip_prefix_str(l, "PRETTY_NAME=") {
                if eq_str(name.as_slice(), "Linux") {
                    name = unquote(v.as_slice());
                }
            }
            i = i + 1;
        }
        assert(views(ls@).take(i as int) =~= views(ls@));
        (
            string_of(name.as_slice()),
            match version {
                Some(v) => Some(string_of(v.as_slice())),
                None => None,
            },
        )
    }

    /// The kernel version that `uname -r` prints.
    pub fn get_kernel_version(uname_output: &str) -> (r: String)
        ensures
            r@ == trim(uname_output@),
    {
        string_of(trimmed(chars_of(uname_output).as_slice()).as_slice())
    }

    /// The system's information, from the files and outputs it is read
    /// from.
    pub fn system_info(
        hostname_file: Option<&str>,
        system_hostname: Option<&str>,
        machine_info: Option<&str>,
        os_release: Option<&str>,
        uname_output: &str,
        architecture: &str,
    ) -> (r: SystemInfo)
        ensures
            r.hostname@ == (match hostname_file {
                Some(c) if trim(c@).len() > 0 => trim(c@),
                _ => match system_hostname {
                    Some(h) => h@,
                    None => "localhost"@,
                },
            }),
            opt_s(r.pretty_hostname) == (match machine_info {
                Some(c) => pretty_hostname_of(lines(c@)),
                None => None,
            }),
            (r.os_name@, opt_s(r.os_version)) == (match os_release {
                Some(c) => os_info_of(lines(c@)),
                None => ("Linux"@, None),
            }),
            r.kernel_version@ == trim(uname_output@),
            r.architecture@ == architecture@,
    {
        let hostname = Self::get_hostname(hostname_file, system_hostname);
        let pretty_hostname = Self::get_pretty_hostname(machine_info);
        let (os_name, os_version) = Self::get_os_info(os_release);
        let kernel_version = Self::get_kernel_version(uname_output);
        SystemInfo {
            hostname,
            pretty_hostname,
            os_name,
            os_version,
            kernel_version,
            architecture: string_from(architecture),
        }
    }

    /// The user's initials for a default avatar: the first letters of the
    /// first two words of the full name, else of the user name, else of
    /// `U`, in upper case.
    pub fn user_initials(full_name: Option<&str>, username: Option<&str>) -> (r: String)
        ensures
            r@ == uppercase(initial_letters(initials_source(opt_str(full_name), opt_str(username)))),
            words(initials_source(opt_str(full_name), opt_str(username))).len() > 0 ==> r@.len()
                > 0,
            all_ascii(initial_letters(initials_source(opt_str(full_name), opt_str(username))))
                ==> r@ == ascii_upper(
                initial_letters(initials_source(opt_str(full_name), opt_str(username))),
            ),
    {
        let name = match full_name {
            Some(f) => chars_of(f),
            None => match username {
                Some(u) => chars_of(u),
                None => chars_of("U"),
            },
        };
        let w = split_ws(name.as_slice());
        proof {
            lemma_words_nonempty_each(name@);
        }
        let mut letters: Vec<char> = Vec::new();
        if w.len() >= 1 {
            assert(views(w@)[0] == w@[0]@);
            letters.push(w[0][0]);
        }
        if w.len() >= 2 {
            assert(views(w@)[1] == w@[1]@);
            letters.push(w[1][0]);
        }
        assert(letters@ =~= initial_letters(name@));
        let up = uppercase_of(letters.as_slice());
        string_of(up.as_slice())
    }

    /// The path of the avatar that AccountsService keeps for a user.
    pub fn accountsservice_avatar_path(uid: u32) -> (r: String)
        ensures
            r@ == "/var/lib/AccountsService/icons/"@ + decimal(uid as nat),
    {
        let mut p = chars_of("/var/lib/AccountsService/icons/");
        let n = decimal_of(uid as u64);
        append(&mut p, n.as_slice());
        string_of(p.as_slice())
    }

    /// The avatar presets among the candidate files: those with an image
    /// extension, sorted by path.
    pub fn list_avatar_presets(candidates: &[ImageCandidate]) -> (r: Vec<String>)
        ensures
            string_views(r@) == sort_by_key::<String>(avatar_paths(candidates@)),
    {
        let mut found: Vec<String> = Vec::new();
        let mut i: usize = 0;
        assert(candidates@.take(0) =~= Seq::<ImageCandidate>::empty());
        assert(string_views(found@) =~= Seq::<Seq<char>>::empty());
        while i < candidates.len()
            invariant
                i <= candidates@.len(),
                string_views(found@) == avatar_paths(candidates@.take(i as int)),
            decreases candidates@.len() - i,
        {
            assert(candidates@.take(i + 1).drop_last() =~= candidates@.take(i as int));
            let c = &candidates[i];
            if let Some(e) = &c.extension {
                let lower = lowercase_of(chars_of(e.as_str()).as_slice());
                let l = lower.as_slice();
                if eq_str(l, "png") || eq_str(l, "jpg") || eq_str(l, "jpeg") || eq_str(l, "svg") {
                    let ghost before = found@;
                    found.push(c.path.clone());
                    assert(string_views(found@) =~= string_views(before).push(c.path@));
                }
            }
            i = i + 1;
        }
        assert(candidates@.take(i as int) =~= candidates@);
        let r = stable_sort(found);
        assert(crate::order::views_of(r@) =~= string_views(r@));
        r
    }

    /// The avatar configuration: the avatar of the osv configuration when it
    /// exists, else that of AccountsService when it exists, and the presets.
    pub fn avatar_config(
        config_avatar: Option<&str>,
        accounts_avatar: Option<&str>,
        candidates: &[ImageCandidate],
    ) -> (r: AvatarConfig)
        ensures
            opt_s(r.path) == (match config_avatar {
                Some(p) => Some(p@),
                None => opt_str(accounts_avatar),
            }),
            string_views(r.presets@) == sort_by_key::<String>(avatar_paths(candidates@)),
    {
        let path = match config_avatar {
            Some(p) => Some(string_from(p)),
            None => match accounts_avatar {
                Some(p) => Some(string_from(p)),
                None => None,
            },
        };
        AvatarConfig { path, presets: Self::list_avatar_presets(candidates) }
    }
}

} // verus!
