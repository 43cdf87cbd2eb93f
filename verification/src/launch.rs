//! Launch arguments: the placeholders that argument templates may hold and
//! their expansion into a command line.

use vstd::prelude::*;
use crate::message::{QuickPlayLaunch, QuickPlayLaunchView, quick_play_view};
use crate::metadata::{first_closing, lemma_first_closing};
use crate::text::{str_eq, string_from_chars, strings_view, to_chars};

verus! {

/// The placeholders that an argument template may hold.
#[derive(Debug, Clone, Copy, PartialEq, Eq, Structural)]
pub enum ArgumentExpansionKey {
    NativesDirectory,
    LauncherName,
    LauncherVersion,
    Classpath,
    ClasspathSeparator,
    LibraryDirectory,
    AuthPlayerName,
    VersionName,
    GameDirectory,
    AssetsRoot,
    AssetsIndexName,
    AuthUuid,
    AuthAccessToken,
    Clientid,
    AuthXuid,
    UserType,
    VersionType,
    ResolutionWidth,
    ResolutionHeight,
    QuickPlayPath,
    QuickPlaySingleplayer,
    QuickPlayMultiplayer,
    QuickPlayRealms,
}

impl ArgumentExpansionKey {
    /// The name of the placeholder, as it stands between `${` and `}`.
    pub open spec fn spec_name(self) -> Seq<char> {
        match self {
            ArgumentExpansionKey::NativesDirectory => "natives_directory"@,
            ArgumentExpansionKey::LauncherName => "launcher_name"@,
            ArgumentExpansionKey::LauncherVersion => "launcher_version"@,
            ArgumentExpansionKey::Classpath => "classpath"@,
            ArgumentExpansionKey::ClasspathSeparator => "classpath_separator"@,
            ArgumentExpansionKey::LibraryDirectory => "library_directory"@,
            ArgumentExpansionKey::AuthPlayerName => "auth_player_name"@,
            ArgumentExpansionKey::VersionName => "version_name"@,
            ArgumentExpansionKey::GameDirectory => "game_directory"@,
            ArgumentExpansionKey::AssetsRoot => "assets_root"@,
            ArgumentExpansionKey::AssetsIndexName => "assets_index_name"@,
            ArgumentExpansionKey::AuthUuid => "auth_uuid"@,
            ArgumentExpansionKey::AuthAccessToken => "auth_access_token"@,
            ArgumentExpansionKey::Clientid => "clientid"@,
            ArgumentExpansionKey::AuthXuid => "auth_xuid"@,
            ArgumentExpansionKey::UserType => "user_type"@,
            ArgumentExpansionKey::VersionType => "version_type"@,
            ArgumentExpansionKey::ResolutionWidth => "resolution_width"@,
            ArgumentExpansionKey::ResolutionHeight => "resolution_height"@,
            ArgumentExpansionKey::QuickPlayPath => "quickPlayPath"@,
            ArgumentExpansionKey::QuickPlaySingleplayer => "quickPlaySingleplayer"@,
            ArgumentExpansionKey::QuickPlayMultiplayer => "quickPlayMultiplayer"@,
            ArgumentExpansionKey::QuickPlayRealms => "quickPlayRealms"@,
        }
    }

    /// The placeholder of the given position in the list of placeholders;
    /// the last one for a position behind the list.
    pub open spec fn nth(index: int) -> ArgumentExpansionKey {
        if index == 0 {
            ArgumentExpansionKey::NativesDirectory
        } else if index == 1 {
            ArgumentExpansionKey::LauncherName
        } else if index == 2 {
            ArgumentExpansionKey::LauncherVersion
        } else if index == 3 {
            ArgumentExpansionKey::Classpath
        } else if index == 4 {
            ArgumentExpansionKey::ClasspathSeparator
        } else if index == 5 {
            ArgumentExpansionKey::LibraryDirectory
        } else if index == 6 {
            ArgumentExpansionKey::AuthPlayerName
        } else if index == 7 {
            ArgumentExpansionKey::VersionName
        } else if index == 8 {
            ArgumentExpansionKey::GameDirectory
        } else if index == 9 {
            ArgumentExpansionKey::AssetsRoot
        } else if index == 10 {
            ArgumentExpansionKey::AssetsIndexName
        } else if index == 11 {
            ArgumentExpansionKey::AuthUuid
        } else if index == 12 {
            ArgumentExpansionKey::AuthAccessToken
        } else if index == 13 {
            ArgumentExpansionKey::Clientid
        } else if index == 14 {
            ArgumentExpansionKey::AuthXuid
        } else if index == 15 {
            ArgumentExpansionKey::UserType
        } else if index == 16 {
            ArgumentExpansionKey::VersionType
        } else if index == 17 {
            ArgumentExpansionKey::ResolutionWidth
        } else if index == 18 {
            ArgumentExpansionKey::ResolutionHeight
        } else if index == 19 {
            ArgumentExpansionKey::QuickPlayPath
        } else if index == 20 {
            ArgumentExpansionKey::QuickPlaySingleplayer
        } else if index == 21 {
            ArgumentExpansionKey::QuickPlayMultiplayer
        } else {
            ArgumentExpansionKey::QuickPlayRealms
        }
    }

    /// The first placeholder, from position `from` of the list on, that
    /// bears the name `name`.
    pub open spec fn find_from(name: Seq<char>, from: int) -> Option<ArgumentExpansionKey>
        decreases 23 - from,
    {
        if from < 0 || from >= 23 {
            None
        } else if Self::nth(from).spec_name() == name {
            Some(Self::nth(from))
        } else {
            Self::find_from(name, from + 1)
        }
    }

    /// The placeholder that bears the name `name`, if there is one.
    pub open spec fn spec_from_str(name: Seq<char>) -> Option<ArgumentExpansionKey> {
        Self::find_from(name, 0)
    }

    /// The placeholder of the given position in the list of placeholders;
    /// the last one for a position behind the list.
    pub fn at(index: usize) -> (res: ArgumentExpansionKey)
        ensures
            res == Self::nth(index as int),
    {
        match index {
            0 => ArgumentExpansionKey::NativesDirectory,
            1 => ArgumentExpansionKey::LauncherName,
            2 => ArgumentExpansionKey::LauncherVersion,
            3 => ArgumentExpansionKey::Classpath,
            4 => ArgumentExpansionKey::ClasspathSeparator,
            5 => ArgumentExpansionKey::LibraryDirectory,
            6 => ArgumentExpansionKey::AuthPlayerName,
            7 => ArgumentExpansionKey::VersionName,
            8 => ArgumentExpansionKey::GameDirectory,
            9 => ArgumentExpansionKey::AssetsRoot,
            10 => ArgumentExpansionKey::AssetsIndexName,
            11 => ArgumentExpansionKey::AuthUuid,
            12 => ArgumentExpansionKey::AuthAccessToken,
            13 => ArgumentExpansionKey::Clientid,
            14 => ArgumentExpansionKey::AuthXuid,
            15 => ArgumentExpansionKey::UserType,
            16 => ArgumentExpansionKey::VersionType,
            17 => ArgumentExpansionKey::ResolutionWidth,
            18 => ArgumentExpansionKey::ResolutionHeight,
            19 => ArgumentExpansionKey::QuickPlayPath,
            20 => ArgumentExpansionKey::QuickPlaySingleplayer,
            21 => ArgumentExpansionKey::QuickPlayMultiplayer,
            _ => ArgumentExpansionKey::QuickPlayRealms,
        }
    }

    /// The name of the placeholder, as it stands between `${` and `}`.
    pub fn name(self) -> (res: &'static str)
        ensures
            res@ == self.spec_name(),
    {
        match self {
            ArgumentExpansionKey::NativesDirectory => "natives_directory",
            ArgumentExpansionKey::LauncherName => "launcher_name",
            ArgumentExpansionKey::LauncherVersion => "launcher_version",
            ArgumentExpansionKey::Classpath => "classpath",
            ArgumentExpansionKey::ClasspathSeparator => "classpath_separator",
            ArgumentExpansionKey::LibraryDirectory => "library_directory",
            ArgumentExpansionKey::AuthPlayerName => "auth_player_name",
            ArgumentExpansionKey::VersionName => "version_name",
            ArgumentExpansionKey::GameDirectory => "game_directory",
            ArgumentExpansionKey::AssetsRoot => "assets_root",
            ArgumentExpansionKey::AssetsIndexName => "assets_index_name",
            ArgumentExpansionKey::AuthUuid => "auth_uuid",
            ArgumentExpansionKey::AuthAccessToken => "auth_access_token",
            ArgumentExpansionKey::Clientid => "clientid",
            ArgumentExpansionKey::AuthXuid => "auth_xuid",
            ArgumentExpansionKey::UserType => "user_type",
            ArgumentExpansionKey::VersionType => "version_type",
            ArgumentExpansionKey::ResolutionWidth => "resolution_width",
            ArgumentExpansionKey::ResolutionHeight => "resolution_height",
            ArgumentExpansionKey::QuickPlayPath => "quickPlayPath",
            ArgumentExpansionKey::QuickPlaySingleplayer => "quickPlaySingleplayer",
            ArgumentExpansionKey::QuickPlayMultiplayer => "quickPlayMultiplayer",
            ArgumentExpansionKey::QuickPlayRealms => "quickPlayRealms",
        }
    }

    /// The placeholder that bears the name `name`, if there is one.
    pub fn from_str(name: &str) -> (res: Option<ArgumentExpansionKey>)
        ensures
            res == Self::spec_from_str(name@),
            res is Some ==> res->0.spec_name() == name@,
            res is None ==> forall|key: ArgumentExpansionKey| key.spec_name() != name@,
    {
        proof {
            assert forall|key: ArgumentExpansionKey| key.spec_name() == name@ implies Self::spec_from_str(
                name@,
            ) is Some by {
                lemma_own_name_is_found(key);
            }
        }
        let mut i: usize = 0;
        while i < 23
            invariant
                i <= 23,
                Self::spec_from_str(name@) == Self::find_from(name@, i as int),
            decreases 23 - i,
        {
            let key = Self::at(i);
            if str_eq(key.name(), name) {
                return Some(key);
            }
            i += 1;
        }
        None
    }
}

/// Every placeholder is found under its own name.
pub proof fn lemma_own_name_is_found(key: ArgumentExpansionKey)
    ensures
        ArgumentExpansionKey::spec_from_str(key.spec_name()) is Some,
        ArgumentExpansionKey::spec_from_str(key.spec_name())->0.spec_name() == key.spec_name(),
{
    let index = choose|index: int| 0 <= index < 23 && ArgumentExpansionKey::nth(index) == key;
    assert(exists|index: int| 0 <= index < 23 && ArgumentExpansionKey::nth(index) == key) by {
        match key {
            ArgumentExpansionKey::NativesDirectory => assert(ArgumentExpansionKey::nth(0) == key),
            ArgumentExpansionKey::LauncherName => assert(ArgumentExpansionKey::nth(1) == key),
            ArgumentExpansionKey::LauncherVersion => assert(ArgumentExpansionKey::nth(2) == key),
            ArgumentExpansionKey::Classpath => assert(ArgumentExpansionKey::nth(3) == key),
            ArgumentExpansionKey::ClasspathSeparator => assert(ArgumentExpansionKey::nth(4) == key),
            ArgumentExpansionKey::LibraryDirectory => assert(ArgumentExpansionKey::nth(5) == key),
            ArgumentExpansionKey::AuthPlayerName => assert(ArgumentExpansionKey::nth(6) == key),
            ArgumentExpansionKey::VersionName => assert(ArgumentExpansionKey::nth(7) == key),
            ArgumentExpansionKey::GameDirectory => assert(ArgumentExpansionKey::nth(8) == key),
            ArgumentExpansionKey::AssetsRoot => assert(ArgumentExpansionKey::nth(9) == key),
            ArgumentExpansionKey::AssetsIndexName => assert(ArgumentExpansionKey::nth(10) == key),
            ArgumentExpansionKey::AuthUuid => assert(ArgumentExpansionKey::nth(11) == key),
            ArgumentExpansionKey::AuthAccessToken => assert(ArgumentExpansionKey::nth(12) == key),
            ArgumentExpansionKey::Clientid => assert(ArgumentExpansionKey::nth(13) == key),
            ArgumentExpansionKey::AuthXuid => assert(ArgumentExpansionKey::nth(14) == key),
            ArgumentExpansionKey::UserType => assert(ArgumentExpansionKey::nth(15) == key),
            ArgumentExpansionKey::VersionType => assert(ArgumentExpansionKey::nth(16) == key),
            ArgumentExpansionKey::ResolutionWidth => assert(ArgumentExpansionKey::nth(17) == key),
            ArgumentExpansionKey::ResolutionHeight => assert(ArgumentExpansionKey::nth(18) == key),
            ArgumentExpansionKey::QuickPlayPath => assert(ArgumentExpansionKey::nth(19) == key),
            ArgumentExpansionKey::QuickPlaySingleplayer => assert(ArgumentExpansionKey::nth(20)
                == key),
            ArgumentExpansionKey::QuickPlayMultiplayer => assert(ArgumentExpansionKey::nth(21)
                == key),
            ArgumentExpansionKey::QuickPlayRealms => assert(ArgumentExpansionKey::nth(22) == key),
        }
    }
    lemma_found_from(key.spec_name(), 0, index);
}

/// A name that a placeholder at or behind position `from` of the list bears
/// is found from that position on, and what is found bears the name.
pub proof fn lemma_found_from(name: Seq<char>, from: int, index: int)
    requires
        0 <= from <= index < 23,
        ArgumentExpansionKey::nth(index).spec_name() == name,
    ensures
        ArgumentExpansionKey::find_from(name, from) is Some,
        ArgumentExpansionKey::find_from(name, from)->0.spec_name() == name,
    decreases index - from,
{
    if ArgumentExpansionKey::nth(from).spec_name() != name {
        lemma_found_from(name, from + 1, index);
    }
}

/// The value that a launch gives to one placeholder.
#[derive(Debug, Clone, PartialEq, Eq)]
pub struct ExpansionValue {
    pub key: ArgumentExpansionKey,
    pub value: String,
}

/// The value that `values` gives to the placeholder `key`: that of the
/// first entry for it.
pub open spec fn value_of(values: Seq<ExpansionValue>, key: ArgumentExpansionKey) -> Option<
    Seq<char>,
>
    decreases values.len(),
{
    if values.len() == 0 {
        None
    } else if values.first().key == key {
        Some(values.first().value@)
    } else {
        value_of(values.drop_first(), key)
    }
}

/// The value of the placeholder named `name`, if the name is known and the
/// launch gives it a value.
pub open spec fn resolve(values: Seq<ExpansionValue>, name: Seq<char>) -> Option<Seq<char>> {
    match ArgumentExpansionKey::spec_from_str(name) {
        Some(key) => value_of(values, key),
        None => None,
    }
}

/// Whether a placeholder token opens at position `i` of `s`: a `$`, an
/// opening brace, and a closing brace somewhere behind them.
pub open spec fn token_at(s: Seq<char>, i: int) -> bool {
    0 <= i && i + 1 < s.len() && s[i] == '$' && s[i + 1] == '{' && first_closing(s, i + 1)
        < s.len()
}

/// The expansion of `s` from position `i` on: each placeholder token is
/// replaced by the value of its placeholder, everything else stays. A token
/// whose placeholder has no value makes the expansion fail with the name of
/// that placeholder.
pub open spec fn expand_from(s: Seq<char>, values: Seq<ExpansionValue>, i: int) -> Result<
    Seq<char>,
    Seq<char>,
>
    decreases s.len() - i,
    via expand_from_decreases
{
    if i < 0 || i >= s.len() {
        Ok(seq![])
    } else if token_at(s, i) {
        let end = first_closing(s, i + 1);
        let name = s.subrange(i + 2, end);
        match resolve(values, name) {
            None => Err(name),
            Some(value) => match expand_from(s, values, end + 1) {
                Ok(rest) => Ok(value + rest),
                Err(unresolved) => Err(unresolved),
            },
        }
    } else {
        match expand_from(s, values, i + 1) {
            Ok(rest) => Ok(seq![s[i]] + rest),
            Err(unresolved) => Err(unresolved),
        }
    }
}

#[via_fn]
proof fn expand_from_decreases(s: Seq<char>, values: Seq<ExpansionValue>, i: int) {
    if 0 <= i && i + 1 < s.len() {
        lemma_first_closing(s, i + 1);
    }
}

/// The expansion of an argument template.
pub open spec fn expansion(s: Seq<char>, values: Seq<ExpansionValue>) -> Result<
    Seq<char>,
    Seq<char>,
> {
    expand_from(s, values, 0)
}

/// Why a launch failed.
#[derive(Debug, Clone, PartialEq, Eq)]
pub enum LaunchError {
    /// Metadata that the launch needs could not be had.
    MissingMetadata,
    /// An argument template holds a placeholder that has no value.
    UnresolvedPlaceholder(String),
    /// The process could not be started.
    SpawnFailed,
}

/// Mathematical model of a [`LaunchError`].
pub ghost enum LaunchErrorView {
    MissingMetadata,
    UnresolvedPlaceholder(Seq<char>),
    SpawnFailed,
}

impl View for LaunchError {
    type V = LaunchErrorView;

    open spec fn view(&self) -> LaunchErrorView {
        match self {
            LaunchError::MissingMetadata => LaunchErrorView::MissingMetadata,
            LaunchError::UnresolvedPlaceholder(name) => LaunchErrorView::UnresolvedPlaceholder(
                name@,
            ),
            LaunchError::SpawnFailed => LaunchErrorView::SpawnFailed,
        }
    }
}

impl LaunchErrorView {
    /// The text that tells the user of the error.
    pub open spec fn message(self) -> Seq<char> {
        match self {
            LaunchErrorView::MissingMetadata => "Unable to load the metadata of the version"@,
            LaunchErrorView::UnresolvedPlaceholder(name) => "Unable to expand launch argument: "@
                + name,
            LaunchErrorView::SpawnFailed => "Unable to start the game process"@,
        }
    }
}

impl LaunchError {
    /// The text that tells the user of the error.
    pub fn message(&self) -> (res: String)
        ensures
            res@ == self@.message(),
    {
        match self {
            LaunchError::MissingMetadata => "Unable to load the metadata of the version".to_owned(),
            LaunchError::UnresolvedPlaceholder(name) => {
                let mut text = "Unable to expand launch argument: ".to_owned();
                text.append(name.as_str());
                text
            },
            LaunchError::SpawnFailed => "Unable to start the game process".to_owned(),
        }
    }
}

/// The model of the outcome of an expansion.
pub open spec fn expanded_view(outcome: Result<String, LaunchError>) -> Result<Seq<char>, Seq<char>> {
    match outcome {
        Ok(text) => Ok(text@),
        Err(LaunchError::UnresolvedPlaceholder(name)) => Err(name@),
        Err(_) => Err(seq![]),
    }
}

/// Looks up the value that the launch gives to a placeholder.
pub fn lookup_value<'a>(values: &'a Vec<ExpansionValue>, key: ArgumentExpansionKey) -> (res: Option<
    &'a String,
>)
    ensures
        match res {
            Some(value) => value_of(values@, key) == Some(value@),
            None => value_of(values@, key) is None,
        },
{
    let mut i: usize = 0;
    assert(values@.skip(0) == values@);
    while i < values.len()
        invariant
            i <= values.len(),
            value_of(values@, key) == value_of(values@.skip(i as int), key),
        decreases values.len() - i,
    {
        assert(values@.skip(i as int).first() == values@[i as int]);
        assert(values@.skip(i as int).drop_first() == values@.skip(i + 1));
        if values[i].key == key {
            return Some(&values[i].value);
        }
        i += 1;
    }
    None
}

/// Expands the placeholders of an argument template. A placeholder token
/// is `${name}`; a `$` or a brace that is part of no token stays as it is.
/// The expansion fails on the first token whose name is no known
/// placeholder or has no value among `values`.
pub fn expand_argument(template: &str, values: &Vec<ExpansionValue>) -> (res: Result<
    String,
    LaunchError,
>)
    ensures
        expanded_view(res) == expansion(template@, values@),
        res is Err ==> res->Err_0 is UnresolvedPlaceholder,
{
    let chars = to_chars(template);
    let n = chars.len();
    let mut out: Vec<char> = Vec::new();
    let mut i: usize = 0;
    assert(Seq::<char>::empty() + seq![] =~= seq![]);
    while i < n
        invariant
            i <= n == chars.len(),
            chars@ == template@,
            expansion(chars@, values@) == (match expand_from(chars@, values@, i as int) {
                Ok(rest) => Ok::<Seq<char>, Seq<char>>(out@ + rest),
                Err(unresolved) => Err(unresolved),
            }),
        decreases n - i,
    {
        let mut token_end: Option<usize> = None;
        if chars[i] == '$' && i + 1 < n && chars[i + 1] == '{' {
            let mut k: usize = i + 1;
            while k < n && chars[k] != '}'
                invariant
                    i + 1 <= k <= n == chars.len(),
                    first_closing(chars@, i + 1) == first_closing(chars@, k as int),
                decreases n - k,
            {
                k += 1;
            }
            if k < n {
                token_end = Some(k);
            }
        }
        match token_end {
            Some(end) => {
                proof {
                    lemma_first_closing(chars@, i + 1);
                }
                let name = string_from_chars(
                    vstd::slice::slice_subrange(chars.as_slice(), i + 2, end),
                );
                let value = match ArgumentExpansionKey::from_str(name.as_str()) {
                    Some(key) => lookup_value(values, key),
                    None => None,
                };
                match value {
                    Some(text) => {
                        let mut more = to_chars(text.as_str());
                        let ghost before = out@;
                        let ghost added = more@;
                        out.append(&mut more);
                        proof {
                            match expand_from(chars@, values@, end + 1) {
                                Ok(rest) => {
                                    assert(before + (added + rest) =~= (before + added) + rest);
                                },
                                Err(_) => {},
                            }
                        }
                        i = end + 1;
                    },
                    None => {
                        return Err(LaunchError::UnresolvedPlaceholder(name));
                    },
                }
            },
            None => {
                let ghost before = out@;
                out.push(chars[i]);
                proof {
                    match expand_from(chars@, values@, i + 1) {
                        Ok(rest) => {
                            assert(before + (seq![chars@[i as int]] + rest) =~= before.push(
                                chars@[i as int],
                            ) + rest);
                        },
                        Err(_) => {},
                    }
                }
                i += 1;
            },
        }
    }
    assert(out@ + Seq::<char>::empty() =~= out@);
    Ok(string_from_chars(out.as_slice()))
}

/// The arguments that take the player to a quick-play target.
pub open spec fn quick_play_arguments(target: Option<QuickPlayLaunchView>) -> Seq<Seq<char>> {
    match target {
        None => seq![],
        Some(QuickPlayLaunchView::Singleplayer(world)) => seq!["--quickPlaySingleplayer"@, world],
        Some(QuickPlayLaunchView::Multiplayer(address)) => seq![
            "--quickPlayMultiplayer"@,
            address,
        ],
        Some(QuickPlayLaunchView::Realms(code)) => seq!["--quickPlayRealms"@, code],
    }
}

/// Appends the arguments that take the player to a quick-play target.
pub fn push_quick_play(arguments: &mut Vec<String>, target: &Option<QuickPlayLaunch>)
    ensures
        strings_view(final(arguments)@) == strings_view(old(arguments)@) + quick_play_arguments(
            quick_play_view(*target),
        ),
{
    let ghost before = arguments@;
    match target {
        None => {
            assert(strings_view(before) + seq![] =~= strings_view(before));
        },
        Some(QuickPlayLaunch::Singleplayer(world)) => {
            arguments.push("--quickPlaySingleplayer".to_owned());
            arguments.push(world.clone());
            assert(strings_view(arguments@) =~= strings_view(before) + seq![
                "--quickPlaySingleplayer"@,
                world@,
            ]);
        },
        Some(QuickPlayLaunch::Multiplayer(address)) => {
            arguments.push("--quickPlayMultiplayer".to_owned());
            arguments.push(address.clone());
            assert(strings_view(arguments@) =~= strings_view(before) + seq![
                "--quickPlayMultiplayer"@,
                address@,
            ]);
        },
        Some(QuickPlayLaunch::Realms(code)) => {
            arguments.push("--quickPlayRealms".to_owned());
            arguments.push(code.clone());
            assert(strings_view(arguments@) =~= strings_view(before) + seq![
                "--quickPlayRealms"@,
                code@,
            ]);
        },
    }
}

/// The expansions of a sequence of templates, or the name of the first
/// placeholder without a value.
pub open spec fn expansions(templates: Seq<Seq<char>>, values: Seq<ExpansionValue>) -> Result<
    Seq<Seq<char>>,
    Seq<char>,
>
    decreases templates.len(),
{
    if templates.len() == 0 {
        Ok(seq![])
    } else {
        match expansions(templates.drop_last(), values) {
            Err(unresolved) => Err(unresolved),
            Ok(front) => match expansion(templates.last(), values) {
                Ok(text) => Ok(front.push(text)),
                Err(unresolved) => Err(unresolved),
            },
        }
    }
}

/// The command line of a launch: the expanded arguments followed by the
/// arguments of the quick-play target, or the name of the first placeholder
/// without a value.
pub open spec fn command_line(
    templates: Seq<Seq<char>>,
    values: Seq<ExpansionValue>,
    target: Option<QuickPlayLaunchView>,
) -> Result<Seq<Seq<char>>, Seq<char>> {
    match expansions(templates, values) {
        Ok(arguments) => Ok(arguments + quick_play_arguments(target)),
        Err(unresolved) => Err(unresolved),
    }
}

/// The model of the outcome of building a command line.
pub open spec fn command_view(outcome: Result<Vec<String>, LaunchError>) -> Result<
    Seq<Seq<char>>,
    Seq<char>,
> {
    match outcome {
        Ok(arguments) => Ok(strings_view(arguments@)),
        Err(LaunchError::UnresolvedPlaceholder(name)) => Err(name@),
        Err(_) => Err(seq![]),
    }
}

/// Builds the command line of a launch: every template is expanded, and
/// the arguments of the quick-play target follow. Fails on the first
/// placeholder without a value.
pub fn build_command_line(
    templates: &Vec<String>,
    values: &Vec<ExpansionValue>,
    target: &Option<QuickPlayLaunch>,
) -> (res: Result<Vec<String>, LaunchError>)
    ensures
        command_view(res) == command_line(
            strings_view(templates@),
            values@,
            quick_play_view(*target),
        ),
        res is Err ==> res->Err_0 is UnresolvedPlaceholder,
{
    let mut arguments: Vec<String> = Vec::new();
    let ghost all = strings_view(templates@);
    assert(all.take(0) =~= seq![]);
    assert(strings_view(arguments@) =~= seq![]);
    let mut i: usize = 0;
    while i < templates.len()
        invariant
            i <= templates.len(),
            all == strings_view(templates@),
            expansions(all.take(i as int), values@) == Ok::<Seq<Seq<char>>, Seq<char>>(
                strings_view(arguments@),
            ),
        decreases templates.len() - i,
    {
        assert(all.take(i + 1).drop_last() == all.take(i as int));
        assert(all.take(i + 1).last() == templates@[i as int]@);
        match expand_argument(templates[i].as_str(), values) {
            Ok(text) => {
                let ghost before = arguments@;
                arguments.push(text);
                assert(strings_view(arguments@) =~= strings_view(before).push(text@));
            },
            Err(error) => {
                proof {
                    lemma_expansions_fail(all, values@, i + 1);
                }
                return Err(error);
            },
        }
        i += 1;
    }
    assert(all.take(templates.len() as int) == all);
    push_quick_play(&mut arguments, target);
    Ok(arguments)
}

/// Once a prefix of the templates fails to expand, all of them fail with
/// the same placeholder.
pub proof fn lemma_expansions_fail(templates: Seq<Seq<char>>, values: Seq<ExpansionValue>, n: int)
    requires
        0 <= n <= templates.len(),
        expansions(templates.take(n), values) is Err,
    ensures
        expansions(templates, values) == expansions(templates.take(n), values),
    decreases templates.len() - n,
{
    if n == templates.len() {
        assert(templates.take(n) == templates);
    } else {
        assert(templates.take(n + 1).drop_last() == templates.take(n));
        lemma_expansions_fail(templates, values, n + 1);
    }
}

} // verus!
