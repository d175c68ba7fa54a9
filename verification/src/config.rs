//! Application configuration and save-path resolution.

use vstd::prelude::*;
use vstd::string::StrSliceExecFns;
use vstd::string::StringExecFns;
use vstd::string::StringSliceAdditionalSpecFns;
use chrono::Datelike;
use chrono::Timelike;

verus! {

/// The default directory where screenshots are saved.
pub open spec fn default_save_dir() -> Seq<char> {
    "~/Pictures/cosmic-shot"@
}

/// The default keyboard shortcut shown by `--print-shortcut`.
pub open spec fn default_shortcut() -> Seq<char> {
    "Alt+Shift+S"@
}

/// Application configuration.
#[derive(Debug)]
pub struct Config {
    /// Directory where screenshots are saved.
    pub save_dir: String,
    /// Human-readable keyboard shortcut shown in --print-shortcut output.
    /// Not used at runtime — documents which shortcut to register in COSMIC Settings.
    pub shortcut: String,
    /// Format that saved screenshots are written in.
    pub format: OutputFormat,
    /// Quality for lossy formats, clamped to 1..=100 when used.
    pub quality: u8,
}

impl Config {
    /// Every field holds its default value.
    pub open spec fn is_default(&self) -> bool {
        &&& self.save_dir@ == default_save_dir()
        &&& self.shortcut@ == default_shortcut()
        &&& self.format == OutputFormat::Png
        &&& self.quality == 85
    }

    /// Resolve `save_dir` by expanding `~` to the user's home directory,
    /// giving the bytes of the resulting path.
    pub fn resolved_save_dir(&self) -> (dir: Vec<u8>)
        ensures
            exists|home: Option<Seq<u8>>|
                #![trigger expand_tilde_spec(vstd::utf8::encode_utf8(self.save_dir@), home)]
                known_home(home) && dir@ == expand_tilde_spec(vstd::utf8::encode_utf8(self.save_dir@), home),
    {
        expand_tilde(self.save_dir.as_str())
    }

    /// The configuration that loading yields: the parsed file when there is
    /// one, and the defaults when the file is missing, unreadable or does
    /// not parse.
    pub fn from_load_outcome(outcome: LoadOutcome) -> (config: Config)
        ensures
            outcome matches LoadOutcome::Parsed(parsed) ==> config == parsed,
            !(outcome is Parsed) ==> config.is_default(),
    {
        match outcome {
            LoadOutcome::Parsed(parsed) => parsed,
            LoadOutcome::NotFound => Config::default(),
            LoadOutcome::ReadFailed => Config::default(),
            LoadOutcome::ParseFailed => Config::default(),
        }
    }
}

impl Default for Config {
    fn default() -> (config: Self)
        ensures
            config.is_default(),
    {
        proof {
            reveal_strlit("~/Pictures/cosmic-shot");
            reveal_strlit("Alt+Shift+S");
        }
        Config {
            save_dir: String::from_str("~/Pictures/cosmic-shot"),
            shortcut: String::from_str("Alt+Shift+S"),
            format: OutputFormat::Png,
            quality: 85,
        }
    }
}

/// The text `--print-shortcut` prints: the configured shortcut, then the
/// command to bind it to, one line each.
pub open spec fn shortcut_report_spec(shortcut: Seq<char>) -> Seq<char> {
    "Shortcut: "@ + shortcut + "\nCommand:  cosmic-shot\n"@
}

/// The two lines that `--print-shortcut` prints for `config`.
pub fn shortcut_report(config: &Config) -> (report: String)
    ensures
        report@ == shortcut_report_spec(config.shortcut@),
{
    let mut report = String::from_str("Shortcut: ");
    report.append(config.shortcut.as_str());
    report.append("\nCommand:  cosmic-shot\n");
    report
}

/// For a shortcut without line breaks, the report is exactly two lines:
/// the first starts with `Shortcut:`, the second is the command line
/// naming `cosmic-shot`.
pub proof fn lemma_shortcut_report_lines(shortcut: Seq<char>)
    requires
        !shortcut.contains('\n'),
    ensures
        ({
            let first = "Shortcut: "@ + shortcut;
            let second = "Command:  cosmic-shot"@;
            &&& shortcut_report_spec(shortcut) == first + seq!['\n'] + second + seq!['\n']
            &&& !first.contains('\n')
            &&& !second.contains('\n')
            &&& first.subrange(0, 9) == "Shortcut:"@
            &&& second.subrange(0, 8) == "Command:"@
            &&& second.subrange(10, 21) == "cosmic-shot"@
        }),
{
    reveal_strlit("Shortcut: ");
    reveal_strlit("Shortcut:");
    reveal_strlit("\nCommand:  cosmic-shot\n");
    reveal_strlit("Command:  cosmic-shot");
    reveal_strlit("Command:");
    reveal_strlit("cosmic-shot");
    let first = "Shortcut: "@ + shortcut;
    let second = "Command:  cosmic-shot"@;
    assert(shortcut_report_spec(shortcut) =~= first + seq!['\n'] + second + seq!['\n']);
    assert(first.subrange(0, 9) =~= "Shortcut:"@);
    assert(second.subrange(0, 8) =~= "Command:"@);
    assert(second.subrange(10, 21) =~= "cosmic-shot"@);
    assert forall|i: int| 0 <= i < first.len() implies first[i] != '\n' by {
        if i >= 10 {
            assert(first[i] == shortcut[i - 10]);
        }
    }
    assert(!second.contains('\n'));
}

/// What reading and parsing the configuration file came to.
pub enum LoadOutcome {
    /// The file was read and parsed.
    Parsed(Config),
    /// There is no configuration file.
    NotFound,
    /// The file exists but could not be read.
    ReadFailed,
    /// The file was read but is not a valid configuration.
    ParseFailed,
}

/// Output format for saved screenshots.
#[derive(Debug, Clone, Copy, PartialEq, Eq, Structural)]
pub enum OutputFormat {
    Png,
    Jpeg,
    WebP,
}

impl OutputFormat {
    /// File extension of the format, without the dot.
    pub open spec fn extension_spec(self) -> Seq<char> {
        match self {
            OutputFormat::Png => "png"@,
            OutputFormat::Jpeg => "jpg"@,
            OutputFormat::WebP => "webp"@,
        }
    }

    /// MIME type of the format.
    pub open spec fn mime_type_spec(self) -> Seq<char> {
        match self {
            OutputFormat::Png => "image/png"@,
            OutputFormat::Jpeg => "image/jpeg"@,
            OutputFormat::WebP => "image/webp"@,
        }
    }

    /// Returns `"png"`, `"jpg"` or `"webp"`.
    pub fn file_extension(&self) -> (ext: &'static str)
        ensures
            ext@ == self.extension_spec(),
    {
        match self {
            OutputFormat::Png => "png",
            OutputFormat::Jpeg => "jpg",
            OutputFormat::WebP => "webp",
        }
    }

    /// Returns `"image/png"`, `"image/jpeg"` or `"image/webp"`.
    pub fn mime_type(&self) -> (mime: &'static str)
        ensures
            mime@ == self.mime_type_spec(),
    {
        match self {
            OutputFormat::Png => "image/png",
            OutputFormat::Jpeg => "image/jpeg",
            OutputFormat::WebP => "image/webp",
        }
    }
}

/// The byte `/`, the Unix path separator.
pub open spec fn sep() -> u8 {
    47
}

/// The byte `~`.
pub open spec fn tilde() -> u8 {
    126
}

/// A home directory as `dirs::home_dir` reports it: absent, or a
/// non-empty path.
pub open spec fn known_home(home: Option<Seq<u8>>) -> bool {
    home matches Some(h) ==> h.len() > 0
}

/// The bytes of an optional home directory.
pub open spec fn home_view(home: Option<Vec<u8>>) -> Option<Seq<u8>> {
    match home {
        Some(h) => Some(h@),
        None => None,
    }
}

/// `path` starts with `~/`.
pub open spec fn has_tilde_slash(path: Seq<u8>) -> bool {
    path.len() >= 2 && path[0] == tilde() && path[1] == sep()
}

/// `rest` appended to `base` the way a Unix path is pushed onto another:
/// an absolute `rest` replaces `base`; otherwise a `/` separates the two
/// unless `base` is empty or already ends in `/`.
pub open spec fn join_path_spec(base: Seq<u8>, rest: Seq<u8>) -> Seq<u8> {
    if rest.len() > 0 && rest[0] == sep() {
        rest
    } else if base.len() > 0 && base.last() != sep() {
        base + seq![sep()] + rest
    } else {
        base + rest
    }
}

/// The bytes of `path` with a leading `~/` or a bare `~` replaced by the
/// home directory; unchanged when there is no such prefix or no home
/// directory.
pub open spec fn expand_tilde_spec(path: Seq<u8>, home: Option<Seq<u8>>) -> Seq<u8> {
    if has_tilde_slash(path) {
        match home {
            Some(h) => join_path_spec(h, path.skip(2)),
            None => path,
        }
    } else if path == seq![tilde()] {
        match home {
            Some(h) => h,
            None => path,
        }
    } else {
        path
    }
}

/// A path that does not start with `~` is never changed, whatever the
/// home directory.
pub proof fn lemma_expand_tilde_keeps_plain_paths(path: Seq<u8>, home: Option<Seq<u8>>)
    requires
        path.len() == 0 || path[0] != tilde(),
    ensures
        expand_tilde_spec(path, home) == path,
{
}

/// Without a known home directory nothing is expanded.
pub proof fn lemma_expand_tilde_without_home(path: Seq<u8>)
    ensures
        expand_tilde_spec(path, None) == path,
{
}

/// With a home directory `h` not ending in `/`: `~` becomes `h`, and
/// `~/rest` becomes `h/rest` for a relative `rest`.
pub proof fn lemma_expand_tilde_with_home(h: Seq<u8>, rest: Seq<u8>)
    requires
        h.len() > 0,
        h.last() != sep(),
        rest.len() == 0 || rest[0] != sep(),
    ensures
        expand_tilde_spec(seq![tilde()], Some(h)) == h,
        expand_tilde_spec(seq![tilde(), sep()] + rest, Some(h)) == h + seq![sep()] + rest,
{
    let path = seq![tilde(), sep()] + rest;
    assert(path.skip(2) =~= rest);
}

/// Wraps `dirs::home_dir`, which reads `$HOME` and falls back to the
/// password database, and hands the path over as its bytes
/// (`OsString::into_encoded_bytes`, which on Unix are the path's own
/// bytes). Its source returns either nothing or a non-empty path; that is
/// all this contract claims.
#[verifier::external_body]
fn home_dir() -> (home: Option<Vec<u8>>)
    ensures
        home matches Some(h) ==> h@.len() > 0,
{
    match dirs::home_dir() {
        Some(path) => Some(path.into_os_string().into_encoded_bytes()),
        None => None,
    }
}

/// Append `src[from..]` to `dst`.
fn push_bytes_from(dst: &mut Vec<u8>, src: &[u8], from: usize)
    requires
        from <= src@.len(),
    ensures
        final(dst)@ == old(dst)@ + src@.skip(from as int),
{
    let ghost start = dst@;
    let mut i = from;
    while i < src.len()
        invariant
            from <= i <= src@.len(),
            dst@ == start + src@.subrange(from as int, i as int),
        decreases src@.len() - i,
    {
        dst.push(src[i]);
        i = i + 1;
        assert(dst@ =~= start + src@.subrange(from as int, i as int));
    }
    assert(src@.subrange(from as int, src@.len() as int) =~= src@.skip(from as int));
}

/// Join `rest` onto `base` as a Unix path.
pub fn join_path(base: &[u8], rest: &[u8]) -> (joined: Vec<u8>)
    ensures
        joined@ == join_path_spec(base@, rest@),
{
    let mut joined: Vec<u8> = Vec::new();
    if rest.len() > 0 && rest[0] == 47 {
        push_bytes_from(&mut joined, rest, 0);
        assert(rest@.skip(0) =~= rest@);
        return joined;
    }
    push_bytes_from(&mut joined, base, 0);
    if base.len() > 0 && base[base.len() - 1] != 47 {
        joined.push(47);
    }
    push_bytes_from(&mut joined, rest, 0);
    assert(base@.skip(0) =~= base@);
    assert(rest@.skip(0) =~= rest@);
    assert(joined@ =~= join_path_spec(base@, rest@));
    joined
}

/// The bytes of `cosmic-shot`, the application's directory name.
pub open spec fn app_dir_name() -> Seq<u8> {
    seq![99u8, 111, 115, 109, 105, 99, 45, 115, 104, 111, 116]
}

/// The bytes of `config.toml`, the configuration file's name.
pub open spec fn config_file_name() -> Seq<u8> {
    seq![99u8, 111, 110, 102, 105, 103, 46, 116, 111, 109, 108]
}

/// Where the configuration file lives inside the user's configuration
/// directory: `cosmic-shot/config.toml`.
pub open spec fn config_path_spec(config_dir: Seq<u8>) -> Seq<u8> {
    join_path_spec(join_path_spec(config_dir, app_dir_name()), config_file_name())
}

/// The path of the configuration file, given the bytes of the user's
/// configuration directory (such as `~/.config`).
pub fn config_path(config_dir: &[u8]) -> (path: Vec<u8>)
    ensures
        path@ == config_path_spec(config_dir@),
{
    // b"cosmic-shot" and b"config.toml"
    let app_dir_bytes: Vec<u8> = vec![99u8, 111, 115, 109, 105, 99, 45, 115, 104, 111, 116];
    let file_bytes: Vec<u8> = vec![99u8, 111, 110, 102, 105, 103, 46, 116, 111, 109, 108];
    assert(app_dir_bytes@ =~= app_dir_name());
    assert(file_bytes@ =~= config_file_name());
    let app_dir = join_path(config_dir, app_dir_bytes.as_slice());
    join_path(app_dir.as_slice(), file_bytes.as_slice())
}

/// The configuration file is `cosmic-shot/config.toml` under the
/// configuration directory.
pub proof fn lemma_config_path(config_dir: Seq<u8>)
    requires
        config_dir.len() > 0,
        config_dir.last() != sep(),
    ensures
        config_path_spec(config_dir) == config_dir + seq![sep()] + app_dir_name() + seq![sep()]
            + config_file_name(),
{
    let app_dir = join_path_spec(config_dir, app_dir_name());
    assert(app_dir =~= config_dir + seq![sep()] + app_dir_name());
    assert(app_dir.last() == 116);
}

/// Expand a leading `~` or `~/` in `path` to the given home directory,
/// giving the bytes of the resulting path.
pub fn expand_tilde_with_home(path: &str, home: Option<Vec<u8>>) -> (expanded: Vec<u8>)
    ensures
        expanded@ == expand_tilde_spec(path.spec_bytes(), home_view(home)),
{
    let bytes = path.as_bytes();
    let mut plain: Vec<u8> = Vec::new();
    push_bytes_from(&mut plain, bytes, 0);
    assert(bytes@.skip(0) =~= bytes@);
    if bytes.len() >= 2 && bytes[0] == 126 && bytes[1] == 47 {
        match home {
            Some(h) => {
                let mut rest: Vec<u8> = Vec::new();
                push_bytes_from(&mut rest, bytes, 2);
                join_path(h.as_slice(), rest.as_slice())
            },
            None => plain,
        }
    } else if bytes.len() == 1 && bytes[0] == 126 {
        assert(bytes@ =~= seq![tilde()]);
        match home {
            Some(h) => h,
            None => plain,
        }
    } else {
        proof {
            if bytes@ == seq![tilde()] {
                assert(bytes@[0] == tilde());
            }
        }
        plain
    }
}

/// Expand a leading `~` or `~/` to the user's home directory, giving the
/// bytes of the resulting path.
pub fn expand_tilde(path: &str) -> (expanded: Vec<u8>)
    ensures
        exists|home: Option<Seq<u8>>|
            #![trigger expand_tilde_spec(path.spec_bytes(), home)]
            known_home(home) && expanded@ == expand_tilde_spec(path.spec_bytes(), home),
{
    let home = home_dir();
    let ghost home_bytes = home_view(home);
    let expanded = expand_tilde_with_home(path, home);
    assert(known_home(home_bytes) && expanded@ == expand_tilde_spec(path.spec_bytes(), home_bytes));
    expanded
}

/// A local wall-clock time, split into calendar fields.
#[derive(Debug, Clone, Copy, PartialEq, Eq, Structural)]
pub struct Timestamp {
    pub year: i32,
    /// 1 to 12.
    pub month: u32,
    /// 1 to 31.
    pub day: u32,
    /// 0 to 23.
    pub hour: u32,
    /// 0 to 59.
    pub minute: u32,
    /// 0 to 59.
    pub second: u32,
}

impl Timestamp {
    /// Every field lies in its calendar range.
    pub open spec fn in_range(&self) -> bool {
        &&& 1 <= self.month <= 12
        &&& 1 <= self.day <= 31
        &&& self.hour <= 23
        &&& self.minute <= 59
        &&& self.second <= 59
    }
}

/// Wraps `std::time::SystemTime::now`, read as the time since the Unix
/// epoch: whole seconds and the nanoseconds beyond them. A clock set before
/// 1970 gives `None`. The value depends on the clock; what holds of every
/// outcome is that the nanoseconds stay below one second.
#[verifier::external_body]
fn unix_time_now() -> (since_epoch: Option<(u64, u32)>)
    ensures
        since_epoch matches Some((_, nanos)) ==> nanos < 1_000_000_000,
{
    match std::time::SystemTime::now().duration_since(std::time::UNIX_EPOCH) {
        Ok(d) => Some((d.as_secs(), d.subsec_nanos())),
        Err(_) => None,
    }
}

/// Wraps `chrono::DateTime::<Utc>::from_timestamp` followed by
/// `with_timezone(&chrono::Local)` and the `Datelike`/`Timelike` getters.
/// `from_timestamp` gives `None` for a time outside chrono's range. The
/// local offset depends on the machine's time zone; what chrono documents
/// of every outcome is that month, day, hour, minute and second lie in
/// their calendar ranges, and that is all this contract claims. Left
/// unsaid: chrono's local-offset lookup (`Local::offset_from_utc_datetime`)
/// unwraps, and so would panic on zone data that gives an offset of a day
/// or more; that depends on the machine, not on the arguments.
#[verifier::external_body]
fn local_time_at(secs: i64, nanos: u32) -> (now: Option<Timestamp>)
    ensures
        now matches Some(t) ==> t.in_range(),
{
    let utc = chrono::DateTime::<chrono::Utc>::from_timestamp(secs, nanos)?;
    let now = utc.with_timezone(&chrono::Local);
    Some(Timestamp {
        year: now.year(),
        month: now.month(),
        day: now.day(),
        hour: now.hour(),
        minute: now.minute(),
        second: now.second(),
    })
}

/// The decimal digit character for `d` (0 to 9).
pub open spec fn digit_char(d: nat) -> char {
    (48 + d) as char
}

/// Decimal digits of `n`, most significant first, without leading zeros.
pub open spec fn decimal(n: nat) -> Seq<char>
    decreases n,
{
    if n < 10 {
        seq![digit_char(n)]
    } else {
        decimal(n / 10).push(digit_char(n % 10))
    }
}

/// Decimal digits of `n`, zero-padded on the left to at least `width` characters.
pub open spec fn zero_padded(n: nat, width: nat) -> Seq<char> {
    let digits = decimal(n);
    if digits.len() < width {
        Seq::new((width - digits.len()) as nat, |i: int| '0') + digits
    } else {
        digits
    }
}

/// A year as `%Y` writes it: four digits from 0 to 9999, otherwise a sign
/// followed by at least four digits.
pub open spec fn year_text(year: int) -> Seq<char> {
    if 0 <= year <= 9999 {
        zero_padded(year as nat, 4)
    } else if year < 0 {
        seq!['-'] + zero_padded((-year) as nat, 4)
    } else {
        seq!['+'] + zero_padded(year as nat, 4)
    }
}

/// The screenshot file name for a given time:
/// `screenshot-YYYY-MM-DD_HH-MM-SS.png`.
pub open spec fn screenshot_filename_spec(t: Timestamp) -> Seq<char> {
    "screenshot-"@ + year_text(t.year as int) + seq!['-'] + zero_padded(t.month as nat, 2) + seq![
        '-',
    ] + zero_padded(t.day as nat, 2) + seq!['_'] + zero_padded(t.hour as nat, 2) + seq!['-']
        + zero_padded(t.minute as nat, 2) + seq!['-'] + zero_padded(t.second as nat, 2)
        + ".png"@
}

/// The digit character for `d` as a one-character string.
fn digit_str(d: u32) -> (s: &'static str)
    requires
        d < 10,
    ensures
        s@ == seq![digit_char(d as nat)],
        s@.len() == 1 && s@[0] as int == 48 + d,
{
    proof {
        reveal_strlit("0");
        reveal_strlit("1");
        reveal_strlit("2");
        reveal_strlit("3");
        reveal_strlit("4");
        reveal_strlit("5");
        reveal_strlit("6");
        reveal_strlit("7");
        reveal_strlit("8");
        reveal_strlit("9");
    }
    let s = if d == 0 {
        "0"
    } else if d == 1 {
        "1"
    } else if d == 2 {
        "2"
    } else if d == 3 {
        "3"
    } else if d == 4 {
        "4"
    } else if d == 5 {
        "5"
    } else if d == 6 {
        "6"
    } else if d == 7 {
        "7"
    } else if d == 8 {
        "8"
    } else {
        "9"
    };
    assert(s@ =~= seq![digit_char(d as nat)]);
    proof {
        lemma_digit_char_value(d as nat);
    }
    s
}

/// Number of decimal digits of `n`.
fn decimal_len(n: u32) -> (len: u32)
    ensures
        len == decimal(n as nat).len(),
    decreases n,
{
    if n < 10 {
        1
    } else {
        let rest = decimal_len(n / 10);
        proof {
            lemma_decimal_len_linear((n / 10) as nat);
        }
        rest + 1
    }
}

/// A number has no more digits than it is large, plus one.
proof fn lemma_decimal_len_linear(n: nat)
    ensures
        decimal(n).len() <= n + 1,
    decreases n,
{
    if n >= 10 {
        lemma_decimal_len_linear(n / 10);
    }
}

/// `10^k`.
pub open spec fn pow10(k: nat) -> nat
    decreases k,
{
    if k == 0 {
        1
    } else {
        10 * pow10((k - 1) as nat)
    }
}

/// A number below `10^k` has at most `k` digits.
proof fn lemma_decimal_len_below(n: nat, k: nat)
    requires
        1 <= k,
        n < pow10(k),
    ensures
        decimal(n).len() <= k,
    decreases n,
{
    if n >= 10 {
        if k == 1 {
            assert(pow10(1) == 10) by {
                reveal_with_fuel(pow10, 2);
            }
        }
        let p = pow10((k - 1) as nat);
        assert(n / 10 < p) by (nonlinear_arith)
            requires
                n < 10 * p,
        ;
        lemma_decimal_len_below(n / 10, (k - 1) as nat);
    }
}

/// Zero-padding a number below `10^width` gives exactly `width` digits.
proof fn lemma_zero_padded_len(n: nat, width: nat)
    requires
        1 <= width,
        n < pow10(width),
    ensures
        zero_padded(n, width).len() == width,
{
    lemma_decimal_len_below(n, width);
}

/// Append the decimal digits of `n` to `s`.
fn push_decimal(s: &mut String, n: u32)
    ensures
        final(s)@ == old(s)@ + decimal(n as nat),
    decreases n,
{
    if n >= 10 {
        push_decimal(s, n / 10);
    }
    s.append(digit_str(n % 10));
    assert(n >= 10 ==> decimal(n as nat) =~= decimal((n / 10) as nat).push(digit_char((n % 10) as nat)));
}

/// Append `n`, zero-padded to at least `width` digits, to `s`.
fn push_zero_padded(s: &mut String, n: u32, width: u32)
    ensures
        final(s)@ == old(s)@ + zero_padded(n as nat, width as nat),
{
    let len = decimal_len(n);
    let ghost start = s@;
    if len < width {
        let mut i: u32 = 0;
        proof {
            reveal_strlit("0");
        }
        while i < width - len
            invariant
                len < width,
                i <= width - len,
                s@ =~= start + Seq::new(i as nat, |j: int| '0'),
            decreases width - len - i,
        {
            proof {
                reveal_strlit("0");
            }
            s.append("0");
            i = i + 1;
        }
    }
    push_decimal(s, n);
    assert(s@ =~= start + zero_padded(n as nat, width as nat));
}

/// Generate the screenshot filename for the time `t`.
///
/// Format: `screenshot-YYYY-MM-DD_HH-MM-SS.png`
pub fn screenshot_filename_at(t: &Timestamp) -> (name: String)
    ensures
        name@ == screenshot_filename_spec(*t),
{
    proof {
        reveal_strlit("screenshot-");
        reveal_strlit("-");
        reveal_strlit("+");
        reveal_strlit("_");
        reveal_strlit(".png");
    }
    let mut name = String::from_str("screenshot-");
    if t.year >= 0 && t.year <= 9999 {
        push_zero_padded(&mut name, t.year as u32, 4);
    } else if t.year < 0 {
        name.append("-");
        let magnitude: u32 = if t.year == i32::MIN {
            2147483648u32
        } else {
            (-t.year) as u32
        };
        push_zero_padded(&mut name, magnitude, 4);
    } else {
        name.append("+");
        push_zero_padded(&mut name, t.year as u32, 4);
    }
    name.append("-");
    push_zero_padded(&mut name, t.month, 2);
    name.append("-");
    push_zero_padded(&mut name, t.day, 2);
    name.append("_");
    push_zero_padded(&mut name, t.hour, 2);
    name.append("-");
    push_zero_padded(&mut name, t.minute, 2);
    name.append("-");
    push_zero_padded(&mut name, t.second, 2);
    name.append(".png");
    assert(name@ =~= screenshot_filename_spec(*t));
    name
}

/// Generate a timestamped screenshot filename for the current local time.
///
/// Format: `screenshot-YYYY-MM-DD_HH-MM-SS.png`. `None` when the clock
/// reads before the Unix epoch or outside chrono's range.
pub fn screenshot_filename() -> (name: Option<String>)
    ensures
        name matches Some(n) ==> exists|t: Timestamp|
            #[trigger] t.in_range() && n@ == screenshot_filename_spec(t),
{
    let since_epoch = unix_time_now();
    match since_epoch {
        None => None,
        Some((secs, nanos)) => {
            if secs > i64::MAX as u64 {
                return None;
            }
            match local_time_at(secs as i64, nanos) {
                None => None,
                Some(t) => Some(screenshot_filename_at(&t)),
            }
        },
    }
}

/// A screenshot file name for a year from 0 to 9999 starts with
/// `screenshot-`, ends with `.png` and is 34 characters long.
pub proof fn lemma_screenshot_filename_shape(t: Timestamp)
    requires
        t.in_range(),
        0 <= t.year <= 9999,
    ensures
        screenshot_filename_spec(t).len() == 34,
        screenshot_filename_spec(t).subrange(0, 11) == "screenshot-"@,
        screenshot_filename_spec(t).subrange(30, 34) == ".png"@,
{
    reveal_strlit("screenshot-");
    reveal_strlit(".png");
    assert(pow10(2) == 100 && pow10(4) == 10000) by {
        reveal_with_fuel(pow10, 5);
    }
    lemma_zero_padded_len(t.year as nat, 4);
    lemma_zero_padded_len(t.month as nat, 2);
    lemma_zero_padded_len(t.day as nat, 2);
    lemma_zero_padded_len(t.hour as nat, 2);
    lemma_zero_padded_len(t.minute as nat, 2);
    lemma_zero_padded_len(t.second as nat, 2);
    let name = screenshot_filename_spec(t);
    assert(name.subrange(0, 11) =~= "screenshot-"@);
    assert(name.subrange(30, 34) =~= ".png"@);
}

/// Whether `c` is one of the ASCII digits `0` to `9`.
pub open spec fn is_ascii_digit(c: char) -> bool {
    48 <= c as int <= 57
}

/// The number a string of ASCII digits spells in base ten, most
/// significant digit first; the empty string reads as 0.
pub open spec fn read_decimal(s: Seq<char>) -> int
    decreases s.len(),
{
    if s.len() == 0 {
        0
    } else {
        10 * read_decimal(s.drop_last()) + (s.last() as int - 48)
    }
}

/// The digit character for `d` is the ASCII character `48 + d`.
pub proof fn lemma_digit_char_value(d: nat)
    requires
        d < 10,
    ensures
        digit_char(d) as int == 48 + d,
        is_ascii_digit(digit_char(d)),
{
}

/// The decimal text of `n` is made of ASCII digits, has no leading zero
/// unless it is `0` itself, and reads back as `n`.
pub proof fn lemma_decimal_reads_back(n: nat)
    ensures
        forall|i: int| 0 <= i < decimal(n).len() ==> is_ascii_digit(#[trigger] decimal(n)[i]),
        read_decimal(decimal(n)) == n,
        decimal(n).len() >= 1,
        n >= 10 ==> decimal(n)[0] != '0',
    decreases n,
{
    if n < 10 {
        lemma_digit_char_value(n);
        assert(decimal(n).drop_last() =~= Seq::<char>::empty());
        assert(read_decimal(decimal(n).drop_last()) == 0);
        assert(decimal(n).last() == digit_char(n));
    } else {
        lemma_decimal_reads_back(n / 10);
        lemma_digit_char_value(n % 10);
        let d = decimal(n);
        assert(d.drop_last() =~= decimal(n / 10));
        assert(d.last() == digit_char(n % 10));
        assert(read_decimal(d) == 10 * read_decimal(decimal(n / 10)) + (n % 10));
        assert(10 * (n / 10) + n % 10 == n);
        if n / 10 < 10 {
            lemma_digit_char_value(n / 10);
        }
    }
}

/// Leading zeros do not change what a string of digits reads as.
proof fn lemma_read_decimal_leading_zeros(k: nat, s: Seq<char>)
    ensures
        read_decimal(Seq::new(k, |i: int| '0') + s) == read_decimal(s),
    decreases s.len(), k,
{
    let zeros = Seq::new(k, |i: int| '0');
    if s.len() == 0 {
        assert(zeros + s =~= zeros);
        if k > 0 {
            assert(zeros.drop_last() =~= Seq::new((k - 1) as nat, |i: int| '0'));
            lemma_read_decimal_leading_zeros((k - 1) as nat, s);
            assert(Seq::new((k - 1) as nat, |i: int| '0') + s =~= Seq::new((k - 1) as nat, |i: int| '0'));
        }
    } else {
        assert((zeros + s).drop_last() =~= zeros + s.drop_last());
        lemma_read_decimal_leading_zeros(k, s.drop_last());
    }
}

/// `n` zero-padded to `width` digits is made of ASCII digits and reads back
/// as `n`.
pub proof fn lemma_zero_padded_reads_back(n: nat, width: nat)
    ensures
        forall|i: int|
            0 <= i < zero_padded(n, width).len() ==> is_ascii_digit(#[trigger] zero_padded(n, width)[i]),
        read_decimal(zero_padded(n, width)) == n,
{
    lemma_decimal_reads_back(n);
    let digits = decimal(n);
    if digits.len() < width {
        let k = (width - digits.len()) as nat;
        lemma_read_decimal_leading_zeros(k, digits);
        let z = zero_padded(n, width);
        assert forall|i: int| 0 <= i < z.len() implies is_ascii_digit(#[trigger] z[i]) by {
            if i >= k {
                assert(z[i] == digits[i - k]);
            }
        }
    }
}

/// The screenshot file name of a time in years 0 to 9999 spells each field
/// of that time at a fixed place: the year in characters 11 to 14, then
/// month, day, hour, minute and second in two digits each, separated by
/// `-`, `-`, `_`, `-`, `-`; every one of those characters is a digit.
pub proof fn lemma_screenshot_filename_fields(t: Timestamp)
    requires
        t.in_range(),
        0 <= t.year <= 9999,
    ensures
        screenshot_filename_spec(t).len() == 34,
        read_decimal(screenshot_filename_spec(t).subrange(11, 15)) == t.year,
        read_decimal(screenshot_filename_spec(t).subrange(16, 18)) == t.month,
        read_decimal(screenshot_filename_spec(t).subrange(19, 21)) == t.day,
        read_decimal(screenshot_filename_spec(t).subrange(22, 24)) == t.hour,
        read_decimal(screenshot_filename_spec(t).subrange(25, 27)) == t.minute,
        read_decimal(screenshot_filename_spec(t).subrange(28, 30)) == t.second,
        screenshot_filename_spec(t)[15] == '-' && screenshot_filename_spec(t)[18] == '-',
        screenshot_filename_spec(t)[21] == '_',
        screenshot_filename_spec(t)[24] == '-' && screenshot_filename_spec(t)[27] == '-',
        forall|i: int|
            11 <= i < 30 && i != 15 && i != 18 && i != 21 && i != 24 && i != 27 ==> is_ascii_digit(
                #[trigger] screenshot_filename_spec(t)[i],
            ),
{
    lemma_screenshot_filename_shape(t);
    reveal_strlit("screenshot-");
    reveal_strlit(".png");
    assert(pow10(2) == 100 && pow10(4) == 10000) by {
        reveal_with_fuel(pow10, 5);
    }
    lemma_zero_padded_len(t.year as nat, 4);
    lemma_zero_padded_len(t.month as nat, 2);
    lemma_zero_padded_len(t.day as nat, 2);
    lemma_zero_padded_len(t.hour as nat, 2);
    lemma_zero_padded_len(t.minute as nat, 2);
    lemma_zero_padded_len(t.second as nat, 2);
    lemma_zero_padded_reads_back(t.year as nat, 4);
    lemma_zero_padded_reads_back(t.month as nat, 2);
    lemma_zero_padded_reads_back(t.day as nat, 2);
    lemma_zero_padded_reads_back(t.hour as nat, 2);
    lemma_zero_padded_reads_back(t.minute as nat, 2);
    lemma_zero_padded_reads_back(t.second as nat, 2);
    let name = screenshot_filename_spec(t);
    let year = zero_padded(t.year as nat, 4);
    let month = zero_padded(t.month as nat, 2);
    let day = zero_padded(t.day as nat, 2);
    let hour = zero_padded(t.hour as nat, 2);
    let minute = zero_padded(t.minute as nat, 2);
    let second = zero_padded(t.second as nat, 2);
    assert(name =~= "screenshot-"@ + year + seq!['-'] + month + seq!['-'] + day + seq!['_'] + hour
        + seq!['-'] + minute + seq!['-'] + second + ".png"@);
    assert(name.subrange(11, 15) =~= year);
    assert(name.subrange(16, 18) =~= month);
    assert(name.subrange(19, 21) =~= day);
    assert(name.subrange(22, 24) =~= hour);
    assert(name.subrange(25, 27) =~= minute);
    assert(name.subrange(28, 30) =~= second);
    assert forall|i: int|
        11 <= i < 30 && i != 15 && i != 18 && i != 21 && i != 24 && i != 27 implies is_ascii_digit(
            #[trigger] name[i],
        ) by {
        if i < 15 {
            assert(name[i] == year[i - 11]);
        } else if i < 18 {
            assert(name[i] == month[i - 16]);
        } else if i < 21 {
            assert(name[i] == day[i - 19]);
        } else if i < 24 {
            assert(name[i] == hour[i - 22]);
        } else if i < 27 {
            assert(name[i] == minute[i - 25]);
        } else {
            assert(name[i] == second[i - 28]);
        }
    }
}

/// Two times in years 0 to 9999 that differ anywhere, down to the second,
/// get different screenshot file names.
pub proof fn lemma_screenshot_filename_injective(t1: Timestamp, t2: Timestamp)
    requires
        t1.in_range(),
        t2.in_range(),
        0 <= t1.year <= 9999,
        0 <= t2.year <= 9999,
        screenshot_filename_spec(t1) == screenshot_filename_spec(t2),
    ensures
        t1 == t2,
{
    lemma_screenshot_filename_fields(t1);
    lemma_screenshot_filename_fields(t2);
}

} // verus!
