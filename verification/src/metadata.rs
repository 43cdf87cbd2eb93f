//! Versioned metadata documents: what the launcher reads of them, and the
//! decisions of fetching and caching them.

use vstd::prelude::*;
use crate::launch::ArgumentExpansionKey;
use crate::text::{str_eq, string_from_chars, string_from_range, strings_view, to_chars};
use sha1::Digest;

verus! {

/// One entry of the version manifest: a version and where its metadata is.
#[derive(Debug, Clone, PartialEq, Eq)]
pub struct MinecraftVersionLink {
    pub id: String,
    pub url: String,
    pub sha1: String,
}

/// Mathematical model of a [`MinecraftVersionLink`].
pub ghost struct MinecraftVersionLinkView {
    pub id: Seq<char>,
    pub url: Seq<char>,
    pub sha1: Seq<char>,
}

impl View for MinecraftVersionLink {
    type V = MinecraftVersionLinkView;

    open spec fn view(&self) -> MinecraftVersionLinkView {
        MinecraftVersionLinkView { id: self.id@, url: self.url@, sha1: self.sha1@ }
    }
}

/// The models of a sequence of manifest entries.
pub open spec fn version_links_view(links: Seq<MinecraftVersionLink>) -> Seq<
    MinecraftVersionLinkView,
> {
    links.map_values(|link: MinecraftVersionLink| link@)
}

/// Whether a `$` stands right before position `i` of `s`.
pub open spec fn armed(s: Seq<char>, i: int) -> bool {
    0 < i <= s.len() && s[i - 1] == '$'
}

/// The first position from `from` on at which `s` holds a closing brace, or
/// the length of `s` if there is none.
pub open spec fn first_closing(s: Seq<char>, from: int) -> int
    decreases s.len() - from,
{
    if from < 0 || from >= s.len() {
        s.len() as int
    } else if s[from] == '}' {
        from
    } else {
        first_closing(s, from + 1)
    }
}

/// The name of the placeholder that opens at position `i` of `s`, if one
/// opens there: an opening brace right behind a `$`, with a closing brace
/// somewhere behind it. The name is what stands between the two braces.
pub open spec fn placeholder_at(s: Seq<char>, i: int) -> Option<Seq<char>> {
    if 0 <= i < s.len() && s[i] == '{' && armed(s, i) && first_closing(s, i) < s.len() {
        Some(s.subrange(i + 1, first_closing(s, i)))
    } else {
        None
    }
}

/// The names of the placeholders that open before position `n` of `s` and
/// are not among the known ones, in the order in which they open.
pub open spec fn unsupported_before(s: Seq<char>, n: int) -> Seq<Seq<char>>
    decreases n,
{
    if n <= 0 {
        seq![]
    } else {
        let before = unsupported_before(s, n - 1);
        match placeholder_at(s, n - 1) {
            Some(name) => if ArgumentExpansionKey::spec_from_str(name) is None {
                before.push(name)
            } else {
                before
            },
            None => before,
        }
    }
}

/// The names of the placeholders of an argument template that are not among
/// the known ones, in the order in which they open.
pub open spec fn unsupported_placeholders(s: Seq<char>) -> Seq<Seq<char>> {
    unsupported_before(s, s.len() as int)
}

/// `first_closing` is the least position of a closing brace from `from` on.
pub proof fn lemma_first_closing(s: Seq<char>, from: int)
    requires
        0 <= from <= s.len(),
    ensures
        from <= first_closing(s, from) <= s.len(),
        first_closing(s, from) < s.len() ==> s[first_closing(s, from)] == '}',
        forall|j: int| from <= j < first_closing(s, from) ==> #[trigger] s[j] != '}',
    decreases s.len() - from,
{
    if from < s.len() && s[from] != '}' {
        lemma_first_closing(s, from + 1);
    }
}

/// Finds the first closing brace of `chars` from `from` on.
fn find_closing(chars: &Vec<char>, from: usize) -> (res: usize)
    requires
        from <= chars.len(),
    ensures
        res == first_closing(chars@, from as int),
        from <= res <= chars.len(),
{
    let mut k: usize = from;
    while k < chars.len() && chars[k] != '}'
        invariant
            from <= k <= chars.len(),
            first_closing(chars@, from as int) == first_closing(chars@, k as int),
        decreases chars.len() - k,
    {
        k += 1;
    }
    k
}

/// Scans an argument template for `${placeholder}` tokens and returns the
/// names that are not among the known placeholders, in order.
pub fn check_argument_expansions(argument: &str) -> (res: Vec<String>)
    ensures
        strings_view(res@) == unsupported_placeholders(argument@),
{
    let chars = to_chars(argument);
    let n = chars.len();
    let mut found: Vec<String> = Vec::new();
    assert(strings_view(found@) =~= seq![]);
    let mut dollar_last = false;
    let mut i: usize = 0;
    while i < n
        invariant
            i <= n == chars.len(),
            chars@ == argument@,
            dollar_last == armed(chars@, i as int),
            strings_view(found@) == unsupported_before(chars@, i as int),
        decreases n - i,
    {
        let c = chars[i];
        if dollar_last && c == '{' {
            let end = find_closing(&chars, i);
            if end < n {
                proof {
                    lemma_first_closing(chars@, i as int);
                }
                let name = string_from_range(&chars, i + 1, end);
                if ArgumentExpansionKey::from_str(name.as_str()).is_none() {
                    let ghost before = found@;
                    found.push(name);
                    assert(strings_view(found@) =~= strings_view(before).push(name@));
                }
            }
        }
        dollar_last = c == '$';
        i += 1;
    }
    found
}

/// Whether `c` is ASCII white space.
pub open spec fn is_ascii_space(c: char) -> bool {
    c == ' ' || c == '\t' || c == '\n' || c == '\x0C' || c == '\r'
}

/// Where the run of characters other than white space that ends right
/// before position `n` of `s` begins.
pub open spec fn word_start(s: Seq<char>, n: int) -> int
    decreases n,
{
    if n <= 0 || n > s.len() || is_ascii_space(s[n - 1]) {
        n
    } else {
        word_start(s, n - 1)
    }
}

/// Whether a word of `s` ends right before position `n`.
pub open spec fn word_ends_at(s: Seq<char>, n: int) -> bool {
    0 < n <= s.len() && !is_ascii_space(s[n - 1]) && (n == s.len() || is_ascii_space(s[n]))
}

/// The words of `s` that end at or before position `n`: the maximal runs of
/// characters other than ASCII white space, in order.
pub open spec fn words_before(s: Seq<char>, n: int) -> Seq<Seq<char>>
    decreases n,
{
    if n <= 0 {
        seq![]
    } else if word_ends_at(s, n) {
        words_before(s, n - 1).push(s.subrange(word_start(s, n), n))
    } else {
        words_before(s, n - 1)
    }
}

/// The words of `s`: its maximal runs of characters other than ASCII white
/// space, in order.
pub open spec fn ascii_words(s: Seq<char>) -> Seq<Seq<char>> {
    words_before(s, s.len() as int)
}

/// Splits a string at its ASCII white space.
pub fn split_ascii_whitespace(text: &str) -> (res: Vec<String>)
    ensures
        strings_view(res@) == ascii_words(text@),
{
    let chars = to_chars(text);
    let n = chars.len();
    let mut words: Vec<String> = Vec::new();
    assert(strings_view(words@) =~= seq![]);
    let mut start: usize = 0;
    let mut i: usize = 0;
    while i < n
        invariant
            i <= n == chars.len(),
            chars@ == text@,
            start <= i,
            start == word_start(chars@, i as int),
            strings_view(words@) == words_before(chars@, i as int),
        decreases n - i,
    {
        let c = chars[i];
        let space = c == ' ' || c == '\t' || c == '\n' || c == '\x0C' || c == '\r';
        if space {
            start = i + 1;
        } else {
            let last = i + 1 == n || {
                let d = chars[i + 1];
                d == ' ' || d == '\t' || d == '\n' || d == '\x0C' || d == '\r'
            };
            if last {
                let word = string_from_range(&chars, start, i + 1);
                let ghost before = words@;
                words.push(word);
                assert(strings_view(words@) =~= strings_view(before).push(word@));
            }
        }
        i += 1;
    }
    words
}

/// The value of a launch argument: one template or several.
#[derive(Debug, Clone, PartialEq, Eq)]
pub enum LaunchArgumentValue {
    Single(String),
    Multiple(Vec<String>),
}

/// One launch argument of a version: given always, or only where the rules
/// of the version allow it.
#[derive(Debug, Clone, PartialEq, Eq)]
pub enum LaunchArgument {
    Single(LaunchArgumentValue),
    Ruled(LaunchArgumentValue),
}

/// The templates that a launch argument holds.
pub open spec fn argument_templates(argument: LaunchArgument) -> Seq<Seq<char>> {
    let value = match argument {
        LaunchArgument::Single(value) => value,
        LaunchArgument::Ruled(value) => value,
    };
    match value {
        LaunchArgumentValue::Single(template) => seq![template@],
        LaunchArgumentValue::Multiple(templates) => strings_view(templates@),
    }
}

/// The templates that a sequence of launch arguments holds, in order.
pub open spec fn arguments_templates(arguments: Seq<LaunchArgument>) -> Seq<Seq<char>>
    decreases arguments.len(),
{
    if arguments.len() == 0 {
        seq![]
    } else {
        arguments_templates(arguments.drop_last()) + argument_templates(arguments.last())
    }
}

/// The game argument templates of a version: those of its argument list
/// where it has one, else the words of its legacy argument string, where it
/// has that.
pub open spec fn version_templates(
    game: Option<Vec<LaunchArgument>>,
    legacy: Option<String>,
) -> Seq<Seq<char>> {
    match game {
        Some(arguments) => arguments_templates(arguments@),
        None => match legacy {
            Some(text) => ascii_words(text@),
            None => seq![],
        },
    }
}

/// The unknown placeholder names of a sequence of templates, template by
/// template.
pub open spec fn unsupported_among(templates: Seq<Seq<char>>) -> Seq<Seq<char>>
    decreases templates.len(),
{
    if templates.len() == 0 {
        seq![]
    } else {
        unsupported_among(templates.drop_last()) + unsupported_placeholders(templates.last())
    }
}

/// The unknown placeholder names of a concatenation are those of its parts.
pub proof fn lemma_unsupported_among_concat(a: Seq<Seq<char>>, b: Seq<Seq<char>>)
    ensures
        unsupported_among(a + b) == unsupported_among(a) + unsupported_among(b),
    decreases b.len(),
{
    if b.len() == 0 {
        assert(a + b =~= a);
        assert(unsupported_among(a) + unsupported_among(b) =~= unsupported_among(a));
    } else {
        lemma_unsupported_among_concat(a, b.drop_last());
        assert((a + b).drop_last() =~= a + b.drop_last());
        assert((a + b).last() == b.last());
        assert(unsupported_among(a) + (unsupported_among(b.drop_last())
            + unsupported_placeholders(b.last())) =~= (unsupported_among(a) + unsupported_among(
            b.drop_last(),
        )) + unsupported_placeholders(b.last()));
    }
}

/// Appends the unknown placeholder names of the templates to `found`.
fn check_templates(templates: &Vec<String>, found: &mut Vec<String>)
    ensures
        strings_view(final(found)@) == strings_view(old(found)@) + unsupported_among(
            strings_view(templates@),
        ),
{
    let ghost all = strings_view(templates@);
    let ghost start = strings_view(found@);
    assert(all.take(0) =~= seq![]);
    assert(start + seq![] =~= start);
    let mut i: usize = 0;
    while i < templates.len()
        invariant
            i <= templates.len(),
            all == strings_view(templates@),
            strings_view(found@) == start + unsupported_among(all.take(i as int)),
        decreases templates.len() - i,
    {
        let ghost before = found@;
        let mut more = check_argument_expansions(templates[i].as_str());
        let ghost added = more@;
        found.append(&mut more);
        assert(strings_view(found@) =~= strings_view(before) + strings_view(added));
        assert(all.take(i + 1).drop_last() == all.take(i as int));
        assert(all.take(i + 1).last() == templates@[i as int]@);
        assert((start + unsupported_among(all.take(i as int))) + strings_view(added) =~= start + (
        unsupported_among(all.take(i as int)) + strings_view(added)));
        i += 1;
    }
    assert(all.take(templates.len() as int) == all);
}

/// Checks the game argument templates of a version for placeholders that
/// are not among the known ones and returns their names, in order.
pub fn check_version_arguments(game: &Option<Vec<LaunchArgument>>, legacy: &Option<String>) -> (res:
    Vec<String>)
    ensures
        strings_view(res@) == unsupported_among(version_templates(*game, *legacy)),
{
    let mut found: Vec<String> = Vec::new();
    assert(strings_view(found@) =~= seq![]);
    match game {
        Some(arguments) => {
            assert(arguments@.take(0) =~= seq![]);
            let mut i: usize = 0;
            while i < arguments.len()
                invariant
                    i <= arguments.len(),
                    strings_view(found@) == unsupported_among(
                        arguments_templates(arguments@.take(i as int)),
                    ),
                decreases arguments.len() - i,
            {
                let ghost before = strings_view(found@);
                let ghost front = arguments_templates(arguments@.take(i as int));
                let value = match &arguments[i] {
                    LaunchArgument::Single(value) => value,
                    LaunchArgument::Ruled(value) => value,
                };
                match value {
                    LaunchArgumentValue::Single(template) => {
                        let ghost old_found = found@;
                        let mut more = check_argument_expansions(template.as_str());
                        let ghost added = more@;
                        found.append(&mut more);
                        assert(strings_view(found@) =~= strings_view(old_found) + strings_view(
                            added,
                        ));
                        assert(unsupported_among(seq![template@]) =~= unsupported_placeholders(
                            template@,
                        )) by {
                            assert(seq![template@].drop_last() =~= Seq::<Seq<char>>::empty());
                            assert(unsupported_among(Seq::<Seq<char>>::empty()) =~= seq![]);
                        }
                    },
                    LaunchArgumentValue::Multiple(templates) => {
                        check_templates(templates, &mut found);
                    },
                }
                proof {
                    assert(arguments@.take(i + 1).drop_last() == arguments@.take(i as int));
                    assert(arguments@.take(i + 1).last() == arguments@[i as int]);
                    lemma_unsupported_among_concat(front, argument_templates(arguments@[i as int]));
                }
                i += 1;
            }
            assert(arguments@.take(arguments.len() as int) == arguments@);
        },
        None => {
            match legacy {
                Some(text) => {
                    let words = split_ascii_whitespace(text.as_str());
                    check_templates(&words, &mut found);
                    assert(seq![] + unsupported_among(strings_view(words@)) =~= unsupported_among(
                        strings_view(words@),
                    ));
                },
                None => {},
            }
        },
    }
    found
}

/// Whether `path` is one of the places where a Java runtime keeps its
/// executable.
pub open spec fn is_known_java_executable(path: Seq<char>) -> bool {
    path == "bin/java"@ || path == "bin/javaw.exe"@ || path
        == "jre.bundle/Contents/Home/bin/java"@ || path == "MinecraftJava.exe"@
}

/// Whether the file list of a runtime component holds a Java executable at
/// one of the known places.
pub open spec fn lists_known_java_executable(files: Seq<Seq<char>>) -> bool {
    exists|i: int| 0 <= i < files.len() && is_known_java_executable(#[trigger] files[i])
}

/// Whether the file list of a runtime component holds a Java executable at
/// one of the known places.
pub fn has_known_java_executable(files: &Vec<String>) -> (res: bool)
    ensures
        res == lists_known_java_executable(strings_view(files@)),
{
    let mut i: usize = 0;
    while i < files.len()
        invariant
            i <= files.len(),
            forall|j: int|
                0 <= j < i ==> !is_known_java_executable(#[trigger] strings_view(files@)[j]),
        decreases files.len() - i,
    {
        let path = files[i].as_str();
        if str_eq(path, "bin/java") || str_eq(path, "bin/javaw.exe") || str_eq(
            path,
            "jre.bundle/Contents/Home/bin/java",
        ) || str_eq(path, "MinecraftJava.exe") {
            assert(is_known_java_executable(strings_view(files@)[i as int]));
            return true;
        }
        i += 1;
    }
    false
}

/// What drives the fetch of one document: where it comes from, where its
/// cached copy lies, and the hash its content must have, if that is known.
#[derive(Debug, Clone, PartialEq, Eq)]
pub struct MetadataCacheEntry {
    pub url: String,
    pub cache_path: String,
    pub expected_hash: Option<String>,
}

/// What was found at the cache path of a document.
#[derive(Debug, Clone, PartialEq, Eq)]
pub enum CacheProbe {
    /// No file.
    Missing,
    /// A file whose content has the hash `hash` and does or does not parse
    /// as the document.
    Present { hash: String, parses: bool },
}

/// What a fetch does first.
#[derive(Debug, Clone, Copy, PartialEq, Eq, Structural)]
pub enum FetchPlan {
    /// Serve the cached file; no request goes out.
    UseCache,
    /// Request the document from its source.
    Download,
}

/// What became of a request to the source of a document.
#[derive(Debug, Clone, PartialEq, Eq)]
pub enum DownloadOutcome {
    /// Content arrived; it has the hash `hash` and does or does not parse as
    /// the document.
    Received { hash: String, parses: bool },
    /// No answer arrived in time.
    TimedOut,
    /// The request failed otherwise.
    Failed,
}

/// Why a fetch failed.
#[derive(Debug, Clone, Copy, PartialEq, Eq, Structural)]
pub enum FetchError {
    /// The content does not have the expected hash.
    HashMismatch,
    /// The source did not answer in time.
    Timeout,
    /// The source could not be reached or refused.
    Network,
    /// The content is not the document that was asked for.
    InvalidDocument,
}

/// Whether content with the hash `actual` is what `expected` asks for.
pub open spec fn hash_accepted(expected: Option<String>, actual: Seq<char>) -> bool {
    match expected {
        Some(hash) => hash@ == actual,
        None => true,
    }
}

/// Whether the cached file can be served: it exists, it has the expected
/// hash where one is known, and it parses.
pub open spec fn cache_usable(entry: MetadataCacheEntry, probe: CacheProbe) -> bool {
    match probe {
        CacheProbe::Missing => false,
        CacheProbe::Present { hash, parses } => parses && hash_accepted(entry.expected_hash, hash@),
    }
}

/// What a fetch does first: it serves the cached file if that is usable and
/// the fetch is not forced, and goes to the source otherwise.
pub open spec fn fetch_plan(entry: MetadataCacheEntry, probe: CacheProbe, force: bool) -> FetchPlan {
    if !force && cache_usable(entry, probe) {
        FetchPlan::UseCache
    } else {
        FetchPlan::Download
    }
}

/// What a download amounts to: content that has the expected hash and
/// parses is stored in the cache and served; anything else is an error of
/// its own kind, and the cache is left alone.
pub open spec fn download_verdict(entry: MetadataCacheEntry, outcome: DownloadOutcome) -> Result<
    (),
    FetchError,
> {
    match outcome {
        DownloadOutcome::TimedOut => Err(FetchError::Timeout),
        DownloadOutcome::Failed => Err(FetchError::Network),
        DownloadOutcome::Received { hash, parses } => if !hash_accepted(entry.expected_hash, hash@) {
            Err(FetchError::HashMismatch)
        } else if !parses {
            Err(FetchError::InvalidDocument)
        } else {
            Ok(())
        },
    }
}

fn accepts_hash(expected: &Option<String>, actual: &String) -> (res: bool)
    ensures
        res == hash_accepted(*expected, actual@),
{
    match expected {
        Some(hash) => str_eq(hash.as_str(), actual.as_str()),
        None => true,
    }
}

/// Decides what a fetch does first, given what lies at the cache path and
/// whether the caller wants the caches bypassed.
pub fn plan_fetch(entry: &MetadataCacheEntry, probe: &CacheProbe, force: bool) -> (res: FetchPlan)
    ensures
        res == fetch_plan(*entry, *probe, force),
{
    if force {
        return FetchPlan::Download;
    }
    match probe {
        CacheProbe::Missing => FetchPlan::Download,
        CacheProbe::Present { hash, parses } => {
            if *parses && accepts_hash(&entry.expected_hash, hash) {
                FetchPlan::UseCache
            } else {
                FetchPlan::Download
            }
        },
    }
}

/// Decides on a download: `Ok` means that the content is to be written to
/// the cache path and served.
pub fn accept_download(entry: &MetadataCacheEntry, outcome: &DownloadOutcome) -> (res: Result<
    (),
    FetchError,
>)
    ensures
        res == download_verdict(*entry, *outcome),
{
    match outcome {
        DownloadOutcome::TimedOut => Err(FetchError::Timeout),
        DownloadOutcome::Failed => Err(FetchError::Network),
        DownloadOutcome::Received { hash, parses } => {
            if !accepts_hash(&entry.expected_hash, hash) {
                Err(FetchError::HashMismatch)
            } else if !*parses {
                Err(FetchError::InvalidDocument)
            } else {
                Ok(())
            }
        },
    }
}

/// The SHA-1 digest of `bytes`.
pub uninterp spec fn sha1_digest(bytes: Seq<u8>) -> Seq<u8>;

/// `sha1::Sha1::digest`, the `digest` function of the crate's `Digest`
/// trait: the SHA-1 digest of the bytes. The digest is the outcome of the
/// hash function, so the contract only names it.
#[verifier::external_body]
pub(crate) fn sha1_of(bytes: &[u8]) -> (res: Vec<u8>)
    ensures
        res@ == sha1_digest(bytes@),
{
    sha1::Sha1::digest(bytes).to_vec()
}

/// The lower-case hexadecimal digit of a number below sixteen.
pub open spec fn hex_digit(n: int) -> char {
    if n < 10 {
        ((48 + n) as u8) as char
    } else {
        ((87 + n) as u8) as char
    }
}

/// The bytes in lower-case hexadecimal, two digits for each byte.
pub open spec fn hex_of(bytes: Seq<u8>) -> Seq<char>
    decreases bytes.len(),
{
    if bytes.len() == 0 {
        seq![]
    } else {
        hex_of(bytes.drop_last()).push(hex_digit((bytes.last() / 16) as int)).push(
            hex_digit((bytes.last() % 16) as int),
        )
    }
}

fn hex_digit_of(n: u8) -> (res: char)
    requires
        n < 16,
    ensures
        res == hex_digit(n as int),
{
    if n < 10 {
        (48 + n) as char
    } else {
        (87 + n) as char
    }
}

/// Writes the bytes in lower-case hexadecimal.
pub fn hex_lower(bytes: &[u8]) -> (res: String)
    ensures
        res@ == hex_of(bytes@),
{
    let mut digits: Vec<char> = Vec::new();
    let mut i: usize = 0;
    assert(bytes@.take(0) =~= seq![]);
    while i < bytes.len()
        invariant
            i <= bytes.len(),
            digits@ == hex_of(bytes@.take(i as int)),
        decreases bytes.len() - i,
    {
        assert(bytes@.take(i + 1).drop_last() == bytes@.take(i as int));
        assert(bytes@.take(i + 1).last() == bytes@[i as int]);
        digits.push(hex_digit_of(bytes[i] / 16));
        digits.push(hex_digit_of(bytes[i] % 16));
        i += 1;
    }
    assert(bytes@.take(bytes.len() as int) == bytes@);
    string_from_chars(digits.as_slice())
}

/// The hash that content is known by: its SHA-1 digest in lower-case
/// hexadecimal.
pub open spec fn content_hash(content: Seq<u8>) -> Seq<char> {
    hex_of(sha1_digest(content))
}

/// Computes the hash that content is known by.
pub fn hash_content(content: &[u8]) -> (res: String)
    ensures
        res@ == content_hash(content@),
{
    let digest = sha1_of(content);
    hex_lower(digest.as_slice())
}

/// The model of optional content.
pub open spec fn optional_bytes(content: Option<&[u8]>) -> Option<Seq<u8>> {
    match content {
        Some(bytes) => Some(bytes@),
        None => None,
    }
}

/// What a fetch does first, given the content of the cached file, if there
/// is one, and whether it parses: the cached file is served if the fetch is
/// not forced, the content parses and its hash is the expected one, where
/// one is known.
pub open spec fn cached_fetch_plan(
    entry: MetadataCacheEntry,
    cached: Option<Seq<u8>>,
    parses: bool,
    force: bool,
) -> FetchPlan {
    if !force && cached is Some && parses && hash_accepted(
        entry.expected_hash,
        content_hash(cached->0),
    ) {
        FetchPlan::UseCache
    } else {
        FetchPlan::Download
    }
}

/// What downloaded content amounts to, given whether it parses: content
/// whose hash is not the expected one is a hash mismatch, content that does
/// not parse is no document, and anything else is stored and served.
pub open spec fn content_verdict(entry: MetadataCacheEntry, content: Seq<u8>, parses: bool) -> Result<
    (),
    FetchError,
> {
    if !hash_accepted(entry.expected_hash, content_hash(content)) {
        Err(FetchError::HashMismatch)
    } else if !parses {
        Err(FetchError::InvalidDocument)
    } else {
        Ok(())
    }
}

/// Decides what a fetch does first, from the content of the cached file.
pub fn plan_cached_fetch(
    entry: &MetadataCacheEntry,
    cached: Option<&[u8]>,
    parses: bool,
    force: bool,
) -> (res: FetchPlan)
    ensures
        res == cached_fetch_plan(*entry, optional_bytes(cached), parses, force),
{
    let probe = match cached {
        Some(content) => CacheProbe::Present { hash: hash_content(content), parses },
        None => CacheProbe::Missing,
    };
    plan_fetch(entry, &probe, force)
}

/// Decides on downloaded content: `Ok` means that it is to be written to
/// the cache path and served.
pub fn check_download(entry: &MetadataCacheEntry, content: &[u8], parses: bool) -> (res: Result<
    (),
    FetchError,
>)
    ensures
        res == content_verdict(*entry, content@, parses),
{
    let outcome = DownloadOutcome::Received { hash: hash_content(content), parses };
    accept_download(entry, &outcome)
}

/// A cached file whose content does not have the expected hash is never
/// served, and downloaded content replaces it exactly if it has the
/// expected hash and parses.
pub proof fn lemma_stale_content_is_fetched_again(
    entry: MetadataCacheEntry,
    cached: Seq<u8>,
    cached_parses: bool,
    force: bool,
    content: Seq<u8>,
    parses: bool,
)
    requires
        entry.expected_hash is Some,
        entry.expected_hash->0@ != content_hash(cached),
    ensures
        cached_fetch_plan(entry, Some(cached), cached_parses, force) == FetchPlan::Download,
        content_verdict(entry, content, parses) is Ok <==> (content_hash(content)
            == entry.expected_hash->0@ && parses),
        content_hash(content) != entry.expected_hash->0@ ==> content_verdict(
            entry,
            content,
            parses,
        ) == Err::<(), FetchError>(FetchError::HashMismatch),
{
}

/// A cached file whose hash is not the expected one is never served: the
/// fetch goes to the source. What arrives from there replaces the cached
/// file exactly if it has the expected hash and parses; content with
/// another hash is a hash mismatch.
pub proof fn lemma_stale_cache_is_fetched_again(
    entry: MetadataCacheEntry,
    cached_hash: String,
    parses: bool,
    force: bool,
    outcome: DownloadOutcome,
)
    requires
        entry.expected_hash is Some,
        entry.expected_hash->0@ != cached_hash@,
    ensures
        fetch_plan(entry, CacheProbe::Present { hash: cached_hash, parses }, force)
            == FetchPlan::Download,
        download_verdict(entry, outcome) is Ok <==> (outcome matches DownloadOutcome::Received {
            hash,
            parses,
        } && hash@ == entry.expected_hash->0@ && parses),
        (outcome matches DownloadOutcome::Received { hash, parses } && hash@
            != entry.expected_hash->0@) ==> download_verdict(entry, outcome) == Err::<
            (),
            FetchError,
        >(FetchError::HashMismatch),
{
}

/// Whether a request for a document starts a fetch or joins one.
#[derive(Debug, Clone, Copy, PartialEq, Eq, Structural)]
pub enum FetchTicket {
    /// No fetch of the document is in flight: the caller starts one.
    Start,
    /// A fetch of the document is in flight: the caller awaits its outcome.
    Join,
}

/// The ticket of a request for `key` while the fetches `in_flight` run.
pub open spec fn ticket_for(in_flight: Set<Seq<char>>, key: Seq<char>) -> FetchTicket {
    if in_flight.contains(key) {
        FetchTicket::Join
    } else {
        FetchTicket::Start
    }
}

/// How many of `n` requests for `key` in a row, with no completion between
/// them, start a fetch.
pub open spec fn starts_among(in_flight: Set<Seq<char>>, key: Seq<char>, n: nat) -> nat
    decreases n,
{
    if n == 0 {
        0
    } else {
        (if ticket_for(in_flight, key) == FetchTicket::Start {
            1nat
        } else {
            0nat
        }) + starts_among(in_flight.insert(key), key, (n - 1) as nat)
    }
}

/// Of any number of requests for one document with no completion between
/// them, exactly one starts a fetch if none was in flight, and none does if
/// one was.
pub proof fn lemma_single_flight(in_flight: Set<Seq<char>>, key: Seq<char>, n: nat)
    ensures
        starts_among(in_flight, key, n) == (if n == 0 || in_flight.contains(key) {
            0nat
        } else {
            1nat
        }),
    decreases n,
{
    if n > 0 {
        lemma_single_flight(in_flight.insert(key), key, (n - 1) as nat);
    }
}

/// The documents whose fetch is in flight.
pub struct FetchTable {
    in_flight: Vec<String>,
}

impl FetchTable {
    /// The keys of the documents whose fetch is in flight.
    pub closed spec fn view(&self) -> Set<Seq<char>> {
        Set::new(
            |key: Seq<char>|
                exists|i: int| 0 <= i < self.in_flight.len() && (#[trigger] self.in_flight[i])@ == key,
        )
    }

    /// Whether the table is well formed: no key is stored twice.
    pub closed spec fn wf(&self) -> bool {
        forall|i: int, j: int|
            0 <= i < j < self.in_flight.len() ==> (#[trigger] self.in_flight[i])@ != (
            #[trigger] self.in_flight[j])@
    }

    /// A table with no fetch in flight.
    pub fn new() -> (res: FetchTable)
        ensures
            res.wf(),
            res@ == Set::<Seq<char>>::empty(),
    {
        let res = FetchTable { in_flight: Vec::new() };
        assert(res@ =~= Set::<Seq<char>>::empty());
        res
    }

    fn position(&self, key: &str) -> (res: Option<usize>)
        ensures
            match res {
                Some(i) => i < self.in_flight.len() && self.in_flight[i as int]@ == key@,
                None => !self@.contains(key@),
            },
    {
        let mut i: usize = 0;
        while i < self.in_flight.len()
            invariant
                i <= self.in_flight.len(),
                forall|j: int| 0 <= j < i ==> (#[trigger] self.in_flight[j])@ != key@,
            decreases self.in_flight.len() - i,
        {
            if str_eq(self.in_flight[i].as_str(), key) {
                return Some(i);
            }
            i += 1;
        }
        None
    }

    /// Whether a fetch of the document `key` is in flight.
    pub fn is_in_flight(&self, key: &str) -> (res: bool)
        ensures
            res == self@.contains(key@),
    {
        match self.position(key) {
            Some(i) => {
                assert(self.in_flight[i as int]@ == key@);
                true
            },
            None => false,
        }
    }

    /// Takes in a request for the document `key`: the caller starts a fetch
    /// if none is in flight for that document, and joins the one in flight
    /// otherwise.
    pub fn begin(&mut self, key: &str) -> (res: FetchTicket)
        requires
            old(self).wf(),
        ensures
            final(self).wf(),
            res == ticket_for(old(self)@, key@),
            final(self)@ == old(self)@.insert(key@),
    {
        match self.position(key) {
            Some(i) => {
                assert(self.in_flight[i as int]@ == key@);
                assert(self@ =~= old(self)@.insert(key@));
                FetchTicket::Join
            },
            None => {
                let ghost before = self.in_flight@;
                self.in_flight.push(key.to_owned());
                assert forall|k: Seq<char>| self@.contains(k) <==> #[trigger] old(self)@.insert(
                    key@,
                ).contains(k) by {
                    if self@.contains(k) {
                        let i = choose|i: int|
                            0 <= i < self.in_flight.len() && (#[trigger] self.in_flight[i])@ == k;
                        if i < before.len() {
                            assert(before[i]@ == k);
                        }
                    }
                    if old(self)@.contains(k) {
                        let i = choose|i: int| 0 <= i < before.len() && (#[trigger] before[i])@ == k;
                        assert(self.in_flight[i]@ == k);
                    }
                    if k == key@ {
                        assert(self.in_flight[before.len() as int]@ == k);
                    }
                }
                assert(self@ =~= old(self)@.insert(key@));
                assert forall|i: int, j: int| 0 <= i < j < self.in_flight.len() implies (
                #[trigger] self.in_flight[i])@ != (#[trigger] self.in_flight[j])@ by {
                    assert(self.in_flight[i] == before[i]);
                    if j < before.len() {
                        assert(self.in_flight[j] == before[j]);
                    }
                }
                FetchTicket::Start
            },
        }
    }

    /// Records that the fetch of the document `key` is over. Returns
    /// whether one was in flight.
    pub fn complete(&mut self, key: &str) -> (res: bool)
        requires
            old(self).wf(),
        ensures
            final(self).wf(),
            res == old(self)@.contains(key@),
            final(self)@ == old(self)@.remove(key@),
    {
        match self.position(key) {
            Some(i) => {
                let ghost before = self.in_flight@;
                assert(before[i as int]@ == key@);
                let _ = self.in_flight.remove(i);
                let ghost after = self.in_flight@;
                assert forall|a: int| 0 <= a < after.len() implies (#[trigger] after[a])
                    == before[if a < i { a } else { a + 1 }] by {}
                assert forall|k: Seq<char>| self@.contains(k) <==> #[trigger] old(self)@.remove(
                    key@,
                ).contains(k) by {
                    if self@.contains(k) {
                        let a = choose|a: int| 0 <= a < after.len() && (#[trigger] after[a])@ == k;
                        let b = if a < i { a } else { a + 1 };
                        assert(before[b]@ == k);
                        assert(b != i);
                        if b < i {
                            assert(before[b]@ != before[i as int]@);
                        } else {
                            assert(before[i as int]@ != before[b]@);
                        }
                    }
                    if old(self)@.remove(key@).contains(k) {
                        let b = choose|b: int| 0 <= b < before.len() && (#[trigger] before[b])@ == k;
                        assert(b != i);
                        let a = if b < i { b } else { b - 1 };
                        assert(after[a] == before[b]);
                        assert(after[a]@ == k);
                    }
                }
                assert(self@ =~= old(self)@.remove(key@));
                assert forall|a: int, b: int| 0 <= a < b < after.len() implies (#[trigger] after[a])@
                    != (#[trigger] after[b])@ by {
                    let a2 = if a < i { a } else { a + 1 };
                    let b2 = if b < i { b } else { b + 1 };
                    assert(after[a] == before[a2]);
                    assert(after[b] == before[b2]);
                    assert(before[a2]@ != before[b2]@);
                }
                true
            },
            None => {
                assert(self@ =~= old(self)@.remove(key@));
                false
            },
        }
    }
}

/// Where the bulk verification pass stands: which document it waits for.
#[derive(Debug, Clone, Copy, PartialEq, Eq, Structural)]
pub enum PassStage {
    /// The version manifest.
    Manifest,
    /// The metadata of the version at this position of the manifest.
    Version(usize),
    /// The asset index of the version at this position of the manifest.
    AssetIndex(usize),
    /// The manifest of the Java runtimes.
    Runtimes,
    /// The file manifest of the runtime component at this position of the
    /// list of components.
    Component(usize),
    /// The pass went through.
    Finished,
    /// The pass was given up.
    Aborted,
}

/// The document that made the pass give up.
#[derive(Debug, Clone, Copy, PartialEq, Eq, Structural)]
pub enum PassFailure {
    Manifest,
    Version(usize),
    AssetIndex(usize),
    Runtimes,
    Component(usize),
    /// An outcome arrived that the pass was not waiting for.
    OutOfOrder,
}

/// The outcome of a fetch that the pass asked for.
#[derive(Debug, Clone, Copy, PartialEq, Eq, Structural)]
pub enum PassEvent {
    /// The version manifest, with the number of versions it lists, or
    /// nothing if the fetch failed.
    Manifest(Option<usize>),
    /// The metadata of a version, or a failure.
    Version(bool),
    /// The asset index of a version, or a failure.
    AssetIndex(bool),
    /// The manifest of the Java runtimes, with the number of components it
    /// lists over all platforms, or nothing if the fetch failed.
    Runtimes(Option<usize>),
    /// The file manifest of a runtime component, or a failure.
    Component(bool),
}

/// What the pass asks for next.
#[derive(Debug, Clone, Copy, PartialEq, Eq, Structural)]
pub enum PassRequest {
    FetchManifest,
    FetchVersion(usize),
    FetchAssetIndex(usize),
    FetchRuntimes,
    FetchComponent(usize),
    /// Nothing: the pass went through.
    Done,
    /// Nothing: the pass is given up.
    Abort(PassFailure),
}

/// The bulk verification pass over all metadata: the version manifest, then
/// the metadata and the asset index of every version it lists, then the
/// manifest of the Java runtimes and the file manifest of every component
/// it lists. The first fetch that fails ends the pass.
#[derive(Debug, Clone, Copy, PartialEq, Eq, Structural)]
pub struct MetadataPass {
    pub stage: PassStage,
    /// Number of versions that the manifest lists.
    pub versions: usize,
    /// Number of runtime components that the runtimes manifest lists.
    pub components: usize,
}

impl MetadataPass {
    /// The pass given up at this point.
    pub open spec fn aborted(self) -> MetadataPass {
        MetadataPass { stage: PassStage::Aborted, ..self }
    }

    /// The pass at the stage behind the asset indices, given how many
    /// versions remain from position `next` on.
    pub open spec fn at_version(self, next: int) -> MetadataPass {
        if next < self.versions {
            MetadataPass { stage: PassStage::Version(next as usize), ..self }
        } else {
            MetadataPass { stage: PassStage::Runtimes, ..self }
        }
    }

    /// The pass at the component of position `next`, or at its end if there
    /// is no such component.
    pub open spec fn at_component(self, next: int) -> MetadataPass {
        if next < self.components {
            MetadataPass { stage: PassStage::Component(next as usize), ..self }
        } else {
            MetadataPass { stage: PassStage::Finished, ..self }
        }
    }

    /// What the pass asks for at its stage.
    pub open spec fn request(self) -> PassRequest {
        match self.stage {
            PassStage::Manifest => PassRequest::FetchManifest,
            PassStage::Version(i) => PassRequest::FetchVersion(i),
            PassStage::AssetIndex(i) => PassRequest::FetchAssetIndex(i),
            PassStage::Runtimes => PassRequest::FetchRuntimes,
            PassStage::Component(j) => PassRequest::FetchComponent(j),
            PassStage::Finished => PassRequest::Done,
            PassStage::Aborted => PassRequest::Abort(PassFailure::OutOfOrder),
        }
    }

    /// The document that a failure at this stage concerns.
    pub open spec fn failure(self) -> PassFailure {
        match self.stage {
            PassStage::Manifest => PassFailure::Manifest,
            PassStage::Version(i) => PassFailure::Version(i),
            PassStage::AssetIndex(i) => PassFailure::AssetIndex(i),
            PassStage::Runtimes => PassFailure::Runtimes,
            PassStage::Component(j) => PassFailure::Component(j),
            _ => PassFailure::OutOfOrder,
        }
    }

    /// The pass after the outcome of the fetch that it asked for, if the
    /// outcome is a success of the kind it waits for; nothing otherwise.
    pub open spec fn progress(self, event: PassEvent) -> Option<MetadataPass> {
        match (self.stage, event) {
            (PassStage::Manifest, PassEvent::Manifest(Some(count))) => Some(
                MetadataPass { versions: count, ..self }.at_version(0),
            ),
            (PassStage::Version(i), PassEvent::Version(true)) => Some(
                MetadataPass { stage: PassStage::AssetIndex(i), ..self },
            ),
            (PassStage::AssetIndex(i), PassEvent::AssetIndex(true)) => Some(self.at_version(i + 1)),
            (PassStage::Runtimes, PassEvent::Runtimes(Some(count))) => Some(
                MetadataPass { components: count, ..self }.at_component(0),
            ),
            (PassStage::Component(j), PassEvent::Component(true)) => Some(self.at_component(j + 1)),
            _ => None,
        }
    }

    /// Whether the event is the failure of the fetch that the pass waits
    /// for.
    pub open spec fn fails(self, event: PassEvent) -> bool {
        match (self.stage, event) {
            (PassStage::Manifest, PassEvent::Manifest(None)) => true,
            (PassStage::Version(_), PassEvent::Version(false)) => true,
            (PassStage::AssetIndex(_), PassEvent::AssetIndex(false)) => true,
            (PassStage::Runtimes, PassEvent::Runtimes(None)) => true,
            (PassStage::Component(_), PassEvent::Component(false)) => true,
            _ => false,
        }
    }

    /// The pass after an event.
    pub open spec fn after(self, event: PassEvent) -> MetadataPass {
        match self.progress(event) {
            Some(next) => next,
            None => self.aborted(),
        }
    }

    /// What the pass asks for after an event: the next document, or
    /// nothing when it went through or is given up. A failed fetch ends the
    /// pass with the document it concerns.
    pub open spec fn answer(self, event: PassEvent) -> PassRequest {
        match self.progress(event) {
            Some(next) => next.request(),
            None => if self.fails(event) {
                PassRequest::Abort(self.failure())
            } else {
                PassRequest::Abort(PassFailure::OutOfOrder)
            },
        }
    }

    /// A pass that has not asked for anything yet.
    pub fn new() -> (res: MetadataPass)
        ensures
            res == (MetadataPass { stage: PassStage::Manifest, versions: 0, components: 0 }),
            res.request() == PassRequest::FetchManifest,
    {
        MetadataPass { stage: PassStage::Manifest, versions: 0, components: 0 }
    }

    /// What the pass asks for at its stage.
    pub fn current_request(&self) -> (res: PassRequest)
        ensures
            res == self.request(),
    {
        match self.stage {
            PassStage::Manifest => PassRequest::FetchManifest,
            PassStage::Version(i) => PassRequest::FetchVersion(i),
            PassStage::AssetIndex(i) => PassRequest::FetchAssetIndex(i),
            PassStage::Runtimes => PassRequest::FetchRuntimes,
            PassStage::Component(j) => PassRequest::FetchComponent(j),
            PassStage::Finished => PassRequest::Done,
            PassStage::Aborted => PassRequest::Abort(PassFailure::OutOfOrder),
        }
    }

    fn go_to_version(&mut self, next: Option<usize>)
        ensures
            *final(self) == old(self).at_version(
                match next {
                    Some(n) => n as int,
                    None => usize::MAX + 1,
                },
            ),
    {
        match next {
            Some(n) => {
                if n < self.versions {
                    self.stage = PassStage::Version(n);
                } else {
                    self.stage = PassStage::Runtimes;
                }
            },
            None => {
                self.stage = PassStage::Runtimes;
            },
        }
    }

    fn go_to_component(&mut self, next: Option<usize>)
        ensures
            *final(self) == old(self).at_component(
                match next {
                    Some(n) => n as int,
                    None => usize::MAX + 1,
                },
            ),
    {
        match next {
            Some(n) => {
                if n < self.components {
                    self.stage = PassStage::Component(n);
                } else {
                    self.stage = PassStage::Finished;
                }
            },
            None => {
                self.stage = PassStage::Finished;
            },
        }
    }

    /// Takes in the outcome of a fetch and says what the pass asks for
    /// next.
    pub fn advance(&mut self, event: PassEvent) -> (res: PassRequest)
        ensures
            *final(self) == old(self).after(event),
            res == old(self).answer(event),
    {
        let stage = self.stage;
        match (stage, event) {
            (PassStage::Manifest, PassEvent::Manifest(Some(count))) => {
                self.versions = count;
                self.go_to_version(Some(0));
                self.current_request()
            },
            (PassStage::Version(i), PassEvent::Version(true)) => {
                self.stage = PassStage::AssetIndex(i);
                PassRequest::FetchAssetIndex(i)
            },
            (PassStage::AssetIndex(i), PassEvent::AssetIndex(true)) => {
                self.go_to_version(i.checked_add(1));
                self.current_request()
            },
            (PassStage::Runtimes, PassEvent::Runtimes(Some(count))) => {
                self.components = count;
                self.go_to_component(Some(0));
                self.current_request()
            },
            (PassStage::Component(j), PassEvent::Component(true)) => {
                self.go_to_component(j.checked_add(1));
                self.current_request()
            },
            (PassStage::Manifest, PassEvent::Manifest(None)) => {
                self.stage = PassStage::Aborted;
                PassRequest::Abort(PassFailure::Manifest)
            },
            (PassStage::Version(i), PassEvent::Version(false)) => {
                self.stage = PassStage::Aborted;
                PassRequest::Abort(PassFailure::Version(i))
            },
            (PassStage::AssetIndex(i), PassEvent::AssetIndex(false)) => {
                self.stage = PassStage::Aborted;
                PassRequest::Abort(PassFailure::AssetIndex(i))
            },
            (PassStage::Runtimes, PassEvent::Runtimes(None)) => {
                self.stage = PassStage::Aborted;
                PassRequest::Abort(PassFailure::Runtimes)
            },
            (PassStage::Component(j), PassEvent::Component(false)) => {
                self.stage = PassStage::Aborted;
                PassRequest::Abort(PassFailure::Component(j))
            },
            _ => {
                self.stage = PassStage::Aborted;
                PassRequest::Abort(PassFailure::OutOfOrder)
            },
        }
    }
}

/// The pass after the outcomes of its fetches, taken in order.
pub open spec fn pass_after(pass: MetadataPass, outcomes: Seq<PassEvent>) -> MetadataPass
    decreases outcomes.len(),
{
    if outcomes.len() == 0 {
        pass
    } else {
        pass_after(pass, outcomes.drop_last()).after(outcomes.last())
    }
}

/// What the pass asks for after the outcomes of its fetches, taken in
/// order.
pub open spec fn pass_answer(pass: MetadataPass, outcomes: Seq<PassEvent>) -> PassRequest
    decreases outcomes.len(),
{
    if outcomes.len() == 0 {
        pass.request()
    } else {
        pass_after(pass, outcomes.drop_last()).answer(outcomes.last())
    }
}

/// Runs the bulk verification pass from its start over the outcomes of the
/// fetches it asked for, in order, and says what it asks for then: the next
/// document, or nothing because it went through or was given up.
pub fn download_all_metadata(outcomes: &Vec<PassEvent>) -> (res: PassRequest)
    ensures
        res == pass_answer(
            MetadataPass { stage: PassStage::Manifest, versions: 0, components: 0 },
            outcomes@,
        ),
{
    let mut pass = MetadataPass::new();
    let ghost start = pass;
    let mut request = pass.current_request();
    assert(outcomes@.take(0) =~= seq![]);
    let mut i: usize = 0;
    while i < outcomes.len()
        invariant
            i <= outcomes.len(),
            pass == pass_after(start, outcomes@.take(i as int)),
            request == pass_answer(start, outcomes@.take(i as int)),
        decreases outcomes.len() - i,
    {
        assert(outcomes@.take(i + 1).drop_last() == outcomes@.take(i as int));
        assert(outcomes@.take(i + 1).last() == outcomes@[i as int]);
        request = pass.advance(outcomes[i]);
        i += 1;
    }
    assert(outcomes@.take(outcomes.len() as int) == outcomes@);
    request
}

/// The pass fails fast: a failed fetch gives it up at once, and a pass that
/// is given up or went through asks for nothing more, whatever arrives.
pub proof fn lemma_pass_fails_fast(pass: MetadataPass, event: PassEvent, later: PassEvent)
    ensures
        pass.fails(event) ==> pass.after(event).stage == PassStage::Aborted && pass.answer(event)
            == PassRequest::Abort(pass.failure()),
        pass.stage == PassStage::Aborted || pass.stage == PassStage::Finished ==> pass.after(
            event,
        ).stage == PassStage::Aborted && pass.answer(event) is Abort,
        pass.after(event).stage == PassStage::Aborted ==> pass.after(event).after(later).stage
            == PassStage::Aborted,
{
}

/// The name of the cache file of an asset index.
pub open spec fn asset_index_file(assets: Seq<char>) -> Seq<char> {
    assets + ".json"@
}

/// The name of the cache file of the asset index `assets`.
pub fn asset_index_file_name(assets: &str) -> (res: String)
    ensures
        res@ == asset_index_file(assets@),
{
    let mut name = assets.to_owned();
    name.append(".json");
    name
}

} // verus!
