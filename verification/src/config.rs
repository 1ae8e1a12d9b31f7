use vstd::prelude::*;
use crate::clock::local_minutes_of_day;
use crate::paths::{
    expand_path_with, expands_to, home_dir, join_path, opt_view, path_exists,
    path_join,
};
use crate::text::{
    byte_suffix_count, byte_suffix_len, chars_of, parse_u32_chars, parse_u32_spec, push_str_chars,
    split_chars, split_on, string_from_chars, string_from_range, utf8_len, utf8_len_at_least,
};

verus! {

broadcast use vstd::string::group_string_axioms;

/// Sauron's settings; each section falls back to its defaults.
pub struct Config {
    pub capture: CaptureConfig,
    pub ollama: OllamaConfig,
    pub summary: SummaryConfig,
    pub email: EmailConfig,
    pub database: DatabaseConfig,
}

/// When and where screenshots are taken.
pub struct CaptureConfig {
    pub interval_minutes: u64,
    pub screenshot_dir: String,
    pub active_hours_start: String,
    pub active_hours_end: String,
    /// Optional list of display indices to capture. None = capture all.
    pub monitors: Option<Vec<usize>>,
}

/// Where the Ollama server is and which models it runs.
pub struct OllamaConfig {
    pub base_url: String,
    pub vision_model: String,
    pub text_model: String,
}

/// When the daily summary is made and where it is written.
pub struct SummaryConfig {
    pub daily_time: String,
    pub output_dir: String,
}

/// The Resend account that mails the daily summary; empty fields turn
/// email off.
pub struct EmailConfig {
    pub resend_api_key: String,
    pub from: String,
    pub to: String,
}

/// Where the SQLite database lives.
pub struct DatabaseConfig {
    pub path: String,
}

// ---------------------------------------------------------------------
// Defaults
// ---------------------------------------------------------------------

pub fn default_interval() -> (r: u64)
    ensures
        r == 3,
{
    3
}

pub fn default_screenshot_dir() -> (r: String)
    ensures
        r@ == "~/sauron/screenshots"@,
{
    "~/sauron/screenshots".to_string()
}

pub fn default_active_start() -> (r: String)
    ensures
        r@ == "09:00"@,
{
    "09:00".to_string()
}

pub fn default_active_end() -> (r: String)
    ensures
        r@ == "18:00"@,
{
    "18:00".to_string()
}

pub fn default_ollama_url() -> (r: String)
    ensures
        r@ == "http://localhost:11434"@,
{
    "http://localhost:11434".to_string()
}

pub fn default_vision_model() -> (r: String)
    ensures
        r@ == "llava"@,
{
    "llava".to_string()
}

pub fn default_text_model() -> (r: String)
    ensures
        r@ == "llama3.2"@,
{
    "llama3.2".to_string()
}

pub fn default_daily_time() -> (r: String)
    ensures
        r@ == "23:59"@,
{
    "23:59".to_string()
}

pub fn default_output_dir() -> (r: String)
    ensures
        r@ == "~/sauron/daily-logs"@,
{
    "~/sauron/daily-logs".to_string()
}

pub fn default_db_path() -> (r: String)
    ensures
        r@ == "~/sauron/sauron.db"@,
{
    "~/sauron/sauron.db".to_string()
}

impl CaptureConfig {
    /// Whether this section holds the default settings.
    pub open spec fn is_default(self) -> bool {
        &&& self.interval_minutes == 3
        &&& self.screenshot_dir@ == "~/sauron/screenshots"@
        &&& self.active_hours_start@ == "09:00"@
        &&& self.active_hours_end@ == "18:00"@
        &&& self.monitors is None
    }
}

impl OllamaConfig {
    /// Whether this section holds the default settings.
    pub open spec fn is_default(self) -> bool {
        &&& self.base_url@ == "http://localhost:11434"@
        &&& self.vision_model@ == "llava"@
        &&& self.text_model@ == "llama3.2"@
    }
}

impl SummaryConfig {
    /// Whether this section holds the default settings.
    pub open spec fn is_default(self) -> bool {
        &&& self.daily_time@ == "23:59"@
        &&& self.output_dir@ == "~/sauron/daily-logs"@
    }
}

impl EmailConfig {
    /// Whether this section holds the default settings: email is off.
    pub open spec fn is_default(self) -> bool {
        &&& self.resend_api_key@.len() == 0
        &&& self.from@.len() == 0
        &&& self.to@.len() == 0
    }
}

impl DatabaseConfig {
    /// Whether this section holds the default settings.
    pub open spec fn is_default(self) -> bool {
        self.path@ == "~/sauron/sauron.db"@
    }
}

impl Config {
    /// Whether every section holds its default settings.
    pub open spec fn is_default(self) -> bool {
        &&& self.capture.is_default()
        &&& self.ollama.is_default()
        &&& self.summary.is_default()
        &&& self.email.is_default()
        &&& self.database.is_default()
    }
}

impl Default for CaptureConfig {
    fn default() -> (r: Self)
        ensures
            r.is_default(),
    {
        CaptureConfig {
            interval_minutes: default_interval(),
            screenshot_dir: default_screenshot_dir(),
            active_hours_start: default_active_start(),
            active_hours_end: default_active_end(),
            monitors: None,
        }
    }
}

impl Default for OllamaConfig {
    fn default() -> (r: Self)
        ensures
            r.is_default(),
    {
        OllamaConfig {
            base_url: default_ollama_url(),
            vision_model: default_vision_model(),
            text_model: default_text_model(),
        }
    }
}

impl Default for SummaryConfig {
    fn default() -> (r: Self)
        ensures
            r.is_default(),
    {
        SummaryConfig { daily_time: default_daily_time(), output_dir: default_output_dir() }
    }
}

impl Default for EmailConfig {
    fn default() -> (r: Self)
        ensures
            r.is_default(),
    {
        EmailConfig { resend_api_key: String::new(), from: String::new(), to: String::new() }
    }
}

impl Default for DatabaseConfig {
    fn default() -> (r: Self)
        ensures
            r.is_default(),
    {
        DatabaseConfig { path: default_db_path() }
    }
}

impl Default for Config {
    fn default() -> (r: Self)
        ensures
            r.is_default(),
    {
        Config {
            capture: CaptureConfig::default(),
            ollama: OllamaConfig::default(),
            summary: SummaryConfig::default(),
            email: EmailConfig::default(),
            database: DatabaseConfig::default(),
        }
    }
}

// ---------------------------------------------------------------------
// Times of day
// ---------------------------------------------------------------------

/// The view of an optional `u32` as an optional integer.
pub open spec fn opt_int(o: Option<u32>) -> Option<int> {
    match o {
        Some(v) => Some(v as int),
        None => None,
    }
}

/// The hour and minute that `s` writes as `H:M`: the text before the first
/// `:` and the text between it and the next `:` (or the end), each read as a
/// `u32`; anything after a second `:` is ignored.
pub open spec fn time_parts(s: Seq<char>) -> Option<(u32, u32)> {
    let parts = split_on(s, ':');
    match parse_u32_spec(parts[0]) {
        Some(h) => if parts.len() >= 2 {
            match parse_u32_spec(parts[1]) {
                Some(m) => Some((h, m)),
                None => None,
            }
        } else {
            None
        },
        None => None,
    }
}

/// The time `s` as minutes since midnight, `hours * 60 + minutes`, computed
/// in `u32` arithmetic that wraps around (modulo 2^32) on overflow, as a
/// release build of `u32` multiplication and addition does.
pub open spec fn time_minutes(s: Seq<char>) -> Option<int> {
    match time_parts(s) {
        Some((h, m)) => Some((h * 60 + m) % 0x1_0000_0000),
        None => None,
    }
}

/// The time `s` in minutes, or `dflt` when `s` is not a time.
pub open spec fn minutes_or(s: Seq<char>, dflt: int) -> int {
    match time_minutes(s) {
        Some(v) => v,
        None => dflt,
    }
}

/// Reads the hour and minute of `time_str`.
fn time_parts_of(time_str: &str) -> (r: Option<(u32, u32)>)
    ensures
        r == time_parts(time_str@),
{
    let v = chars_of(time_str);
    let parts = split_chars(&v, ':');
    let ghost pv = parts@.map_values(|p: Vec<char>| p@);
    assert(pv.len() == parts@.len());
    assert(split_on(v@, ':').len() >= 1);
    assert(pv[0] == parts@[0]@);
    match parse_u32_chars(&parts[0]) {
        None => None,
        Some(h) => {
            if parts.len() < 2 {
                None
            } else {
                assert(pv[1] == parts@[1]@);
                match parse_u32_chars(&parts[1]) {
                    None => None,
                    Some(m) => Some((h, m)),
                }
            }
        },
    }
}

impl CaptureConfig {
    /// Whether `now` (minutes since midnight) lies in the active hours:
    /// from the start (midnight when it is not a time) up to but not
    /// including the end (the next midnight when it is not a time).
    pub open spec fn active_at(self, now: int) -> bool {
        minutes_or(self.active_hours_start@, 0) <= now && now < minutes_or(
            self.active_hours_end@,
            1440int,
        )
    }
}

/// The active window in minutes since midnight: a capture time `now` is
/// active exactly when it is at or after the start time (midnight when the
/// start is not a time) and before the end time (1440, the next midnight,
/// when the end is not a time); in particular no time before a valid start
/// and none at or after a valid end is active.
pub proof fn lemma_active_window_in_minutes(c: CaptureConfig, now: int)
    ensures
        c.active_at(now) <==> ((match time_minutes(c.active_hours_start@) {
            Some(v) => v <= now,
            None => 0 <= now,
        }) && (match time_minutes(c.active_hours_end@) {
            Some(w) => now < w,
            None => now < 1440,
        })),
        time_minutes(c.active_hours_start@) matches Some(v) && now < v ==> !c.active_at(now),
        time_minutes(c.active_hours_end@) matches Some(w) && now >= w ==> !c.active_at(now),
{
}

/// The directory for Sauron's own files (configuration, PID and pause
/// files), `.config/sauron` in the home directory `home`; the literal
/// `~/.config/sauron` when there is no home directory.
pub open spec fn config_dir_of(home: Option<Seq<char>>) -> Seq<char> {
    path_join(
        match home {
            Some(h) => path_join(h, ".config"@),
            None => "~/.config"@,
        },
        "sauron"@,
    )
}

/// The file `name` in the directory for Sauron's own files under `home`.
pub open spec fn state_file_of(home: Option<Seq<char>>, name: Seq<char>) -> Seq<char> {
    path_join(config_dir_of(home), name)
}

/// Whether `home` is a home directory that can come back: none, or one
/// that is not empty.
pub open spec fn home_ok(home: Option<Seq<char>>) -> bool {
    home matches Some(h) ==> h.len() > 0
}

/// Sauron's own files, named by a relative `name`, lie directly in its
/// directory: the configuration file, the PID file and the pause file
/// share one directory, which ends in `/sauron`.
pub proof fn lemma_state_files_in_config_dir(home: Option<Seq<char>>, name: Seq<char>)
    requires
        name.len() > 0,
        name[0] != '/',
    ensures
        state_file_of(home, name) == config_dir_of(home) + "/"@ + name,
        config_dir_of(home).len() >= 6,
        config_dir_of(home).subrange(
            config_dir_of(home).len() - 6,
            config_dir_of(home).len() as int,
        ) == "sauron"@,
{
    reveal_strlit("sauron");
    reveal_strlit("/");
    reveal_strlit(".config");
    reveal_strlit("~/.config");
    let base = match home {
        Some(h) => path_join(h, ".config"@),
        None => "~/.config"@,
    };
    let d = config_dir_of(home);
    assert(d == path_join(base, "sauron"@));
    assert("sauron"@[0] != '/');
    assert(d.subrange(d.len() - 6, d.len() as int) =~= "sauron"@);
    assert(d.last() == 'n');
}

/// The masked form of an API key that the configuration printout shows:
/// `not set` for an empty key, `***` followed by the key's last four bytes
/// when it has at least four, and `***` otherwise.
pub open spec fn masked_key(key: Seq<char>) -> Seq<char> {
    if key.len() == 0 {
        "not set"@
    } else if utf8_len(key) >= 4 {
        "***"@ + key.skip(key.len() - byte_suffix_len(key, 4)->0)
    } else {
        "***"@
    }
}

impl EmailConfig {
    /// Whether the key's last four bytes start at a character boundary
    /// (slicing there would panic otherwise).
    pub open spec fn key_mask_defined(self) -> bool {
        utf8_len(self.resend_api_key@) >= 4 ==> byte_suffix_len(self.resend_api_key@, 4) is Some
    }

    /// The API key as the configuration printout shows it, with all but its
    /// last four bytes hidden.
    pub fn masked_api_key(&self) -> (r: String)
        requires
            self.key_mask_defined(),
        ensures
            r@ == masked_key(self.resend_api_key@),
    {
        let key = chars_of(self.resend_api_key.as_str());
        if key.len() == 0 {
            "not set".to_string()
        } else if utf8_len_at_least(&key, 4) {
            let k = byte_suffix_count(&key, 4);
            match k {
                Some(k) => {
                    let tail = string_from_range(&key, key.len() - k, key.len());
                    let mut r = "***".to_string();
                    push_str_chars(&mut r, tail.as_str());
                    assert(key@.subrange(key.len() - k, key.len() as int) =~= key@.skip(
                        key.len() - k,
                    ));
                    r
                },
                None => {
                    "***".to_string()
                },
            }
        } else {
            "***".to_string()
        }
    }
}

impl Config {
    /// Reads the time `time_str`, written `H:M`, as minutes since midnight.
    /// The minutes wrap around modulo 2^32 when `hours * 60 + minutes` does
    /// not fit in a `u32`.
    pub fn parse_time_minutes(time_str: &str) -> (r: Option<u32>)
        ensures
            opt_int(r) == time_minutes(time_str@),
    {
        match time_parts_of(time_str) {
            None => None,
            Some((h, m)) => {
                let total: u64 = ((h as u64) * 60 + (m as u64)) % 0x1_0000_0000;
                Some(total as u32)
            },
        }
    }

    /// Whether the time of day `current_minutes` (minutes since midnight)
    /// lies in the configured active hours.
    pub fn is_within_active_hours_at(&self, current_minutes: u32) -> (r: bool)
        ensures
            r == self.capture.active_at(current_minutes as int),
    {
        let start = match Self::parse_time_minutes(self.capture.active_hours_start.as_str()) {
            Some(v) => v,
            None => 0,
        };
        let end = match Self::parse_time_minutes(self.capture.active_hours_end.as_str()) {
            Some(v) => v,
            None => 24 * 60,
        };
        current_minutes >= start && current_minutes < end
    }

    /// Whether the current local time lies in the configured active hours.
    pub fn is_within_active_hours(&self) -> (r: bool)
        ensures
            exists|t: int| 0 <= t < 24 * 60 && r == self.capture.active_at(t),
    {
        let now = local_minutes_of_day();
        let r = self.is_within_active_hours_at(now);
        assert(0 <= now < 24 * 60 && r == self.capture.active_at(now as int));
        r
    }

    /// The directory for Sauron's own files under the home directory
    /// `home`.
    pub fn config_dir_from(home: Option<String>) -> (r: String)
        ensures
            r@ == config_dir_of(opt_view(home)),
    {
        match home {
            Some(h) => {
                let base = join_path(h.as_str(), ".config");
                join_path(base.as_str(), "sauron")
            },
            None => join_path("~/.config", "sauron"),
        }
    }

    /// The directory for Sauron's own files (configuration, PID and pause
    /// files): `.config/sauron` in the user's home directory.
    pub fn config_dir() -> (r: String)
        ensures
            exists|h: Option<Seq<char>>| home_ok(h) && r@ == #[trigger] config_dir_of(h),
    {
        let home = home_dir();
        let ghost h = opt_view(home);
        let r = Self::config_dir_from(home);
        assert(home_ok(h) && r@ == config_dir_of(h));
        r
    }

    /// The file `name` in the directory for Sauron's own files.
    pub fn state_file(name: &str) -> (r: String)
        ensures
            exists|h: Option<Seq<char>>| home_ok(h) && r@ == #[trigger] state_file_of(h, name@),
    {
        let dir = Self::config_dir();
        let ghost h = choose|h: Option<Seq<char>>| home_ok(h) && dir@ == #[trigger] config_dir_of(h);
        let r = join_path(dir.as_str(), name);
        assert(home_ok(h) && r@ == state_file_of(h, name@));
        r
    }

    /// The configuration file, `config.toml` in the directory for Sauron's
    /// own files.
    pub fn config_path() -> (r: String)
        ensures
            exists|h: Option<Seq<char>>|
                home_ok(h) && r@ == #[trigger] state_file_of(h, "config.toml"@),
    {
        Self::state_file("config.toml")
    }

    /// The file whose presence pauses captures, `sauron.paused` in the
    /// directory for Sauron's own files.
    pub fn pause_file() -> (r: String)
        ensures
            exists|h: Option<Seq<char>>|
                home_ok(h) && r@ == #[trigger] state_file_of(h, "sauron.paused"@),
    {
        Self::state_file("sauron.paused")
    }

    /// Whether captures are paused, that is whether the pause file exists.
    /// That depends on what is on disk.
    pub fn is_paused() -> bool {
        let f = Self::pause_file();
        path_exists(f.as_str())
    }

    /// Expands a leading `~/` of `path` to the current user's home directory.
    /// A path without that prefix comes back unchanged; one with it comes back
    /// unchanged when no home directory is known, and otherwise joined onto a
    /// home directory that is not empty.
    pub fn expand_path(path: &str) -> (r: String)
        ensures
            expands_to(path@, r@),
    {
        let v = chars_of(path);
        if v.len() >= 2 && v[0] == '~' && v[1] == '/' {
            let home = home_dir();
            let ghost hv = opt_view(home);
            let r = expand_path_with(path, home);
            proof {
                if hv is Some {
                    assert(r@ == path_join(hv->0, path@.skip(2)));
                }
            }
            r
        } else {
            string_from_chars(&v)
        }
    }

    /// The configured screenshot directory, with `~/` expanded.
    pub fn screenshot_dir(&self) -> (r: String)
        ensures
            expands_to(self.capture.screenshot_dir@, r@),
    {
        Self::expand_path(self.capture.screenshot_dir.as_str())
    }

    /// The configured directory for daily logs, with `~/` expanded.
    pub fn output_dir(&self) -> (r: String)
        ensures
            expands_to(self.summary.output_dir@, r@),
    {
        Self::expand_path(self.summary.output_dir.as_str())
    }

    /// The configured database file, with `~/` expanded.
    pub fn db_path(&self) -> (r: String)
        ensures
            expands_to(self.database.path@, r@),
    {
        Self::expand_path(self.database.path.as_str())
    }
}

} // verus!
