//! The settings a search runs under.

use crate::text::{
    chars_of, contains, contains_seq, ends_with, has_suffix, same_chars, same_text,
};
use vstd::prelude::*;

verus! {

/// The match settings used where the command line gives none.
#[derive(Debug, Clone)]
pub struct DefaultSearchOptions {
    /// `"fuzzy"` or `"exact"`.
    pub match_mode: String,
    pub case_sensitive: bool,
}

/// How results are shown.
#[derive(Debug, Clone)]
pub struct OutputOptions {
    pub show_details: bool,
    pub color_theme: String,
    pub max_content_matches: usize,
    pub max_line_length: usize,
}

/// The settings of a search.
#[derive(Debug, Clone)]
pub struct Config {
    /// An entry whose name contains one of these fragments is left out.
    pub ignore_directories: Vec<String>,
    /// `*.ext` leaves out names that end in `ext`; any other pattern leaves out
    /// names that contain it.
    pub ignore_file_patterns: Vec<String>,
    pub max_memory_mb: usize,
    /// The parallel search looks at no more than this many entries.
    pub max_files_per_search: usize,
    pub max_parallel_threads: Option<usize>,
    /// Files larger than this many mebibytes are left out.
    pub max_file_size_mb: u64,
    pub include_hidden: bool,
    pub follow_symlinks: bool,
    /// The extensions, each with its leading dot, of the files whose text is
    /// searched.
    pub content_search_extensions: Vec<String>,
    pub default_search_options: DefaultSearchOptions,
    pub output_options: OutputOptions,
}

/// The file names without an extension whose text is searched all the same.
pub open spec fn is_known_text_name(name: Seq<char>) -> bool {
    ||| name == "README"@
    ||| name == "Makefile"@
    ||| name == "Dockerfile"@
    ||| name == "LICENSE"@
}

/// The index of the last `c` in `s`, or -1 where there is none.
pub open spec fn last_index_of(s: Seq<char>, c: char) -> int
    decreases s.len(),
{
    if s.len() == 0 {
        -1
    } else if s.last() == c {
        s.len() - 1
    } else {
        last_index_of(s.drop_last(), c)
    }
}

/// The extension of a file name: what follows its last dot, where the name has
/// a dot that is not its first character. The name `..` has none.
pub open spec fn extension_of(name: Seq<char>) -> Option<Seq<char>> {
    let dot = last_index_of(name, '.');
    if name == seq!['.', '.'] || dot <= 0 {
        None
    } else {
        Some(name.skip(dot + 1))
    }
}

/// One ignore pattern applies to a name: `*.ext` to a name that ends in `ext`,
/// any other pattern to a name that contains it.
pub open spec fn file_pattern_applies(name: Seq<char>, pattern: Seq<char>) -> bool {
    if pattern.len() >= 2 && pattern[0] == '*' && pattern[1] == '.' {
        has_suffix(name, pattern.skip(2))
    } else {
        contains_seq(name, pattern)
    }
}

/// The number of threads to work with: what the command line asks for, else
/// what the settings ask for, else twice the number of cores under the maximum
/// policy (as far as that fits the machine's word), else the number of cores.
pub open spec fn thread_count_for(
    cli_threads: Option<usize>,
    config_threads: Option<usize>,
    max_cpu_flag: bool,
    cores: usize,
) -> usize {
    if let Some(threads) = cli_threads {
        threads
    } else if let Some(threads) = config_threads {
        threads
    } else if max_cpu_flag {
        if cores * 2 <= usize::MAX {
            (cores * 2) as usize
        } else {
            usize::MAX
        }
    } else {
        cores
    }
}

/// The position of the last `c` in `s`.
pub fn find_last(s: &Vec<char>, c: char) -> (r: Option<usize>)
    ensures
        match r {
            Some(i) => i < s@.len() && i == last_index_of(s@, c),
            None => last_index_of(s@, c) == -1,
        },
{
    let mut i = s.len();
    assert(s@.take(s@.len() as int) =~= s@);
    while i > 0
        invariant
            i <= s.len(),
            last_index_of(s@, c) == last_index_of(s@.take(i as int), c),
        decreases i,
    {
        proof {
            let head = s@.take(i as int);
            assert(head.drop_last() =~= s@.take(i - 1));
        }
        if s[i - 1] == c {
            return Some(i - 1);
        }
        i -= 1;
    }
    None
}

/// The number of threads to work with, for a given number of cores.
pub fn effective_thread_count(
    cli_threads: Option<usize>,
    config_threads: Option<usize>,
    max_cpu_flag: bool,
    cores: usize,
) -> (r: usize)
    ensures
        r == thread_count_for(cli_threads, config_threads, max_cpu_flag, cores),
{
    if let Some(threads) = cli_threads {
        threads
    } else if let Some(threads) = config_threads {
        threads
    } else if max_cpu_flag {
        if cores <= usize::MAX / 2 {
            cores * 2
        } else {
            usize::MAX
        }
    } else {
        cores
    }
}

/// Calls `num_cpus::get()`, the number of logical cores that this process may
/// use. It differs from machine to machine; the crate promises only that it is
/// at least 1.
#[verifier::external_body]
pub(crate) fn detected_cores() -> (n: usize)
    ensures
        n >= 1,
{
    num_cpus::get()
}

impl Config {
    /// Some ignored fragment occurs in `dir_name`.
    pub open spec fn ignores_directory(&self, dir_name: Seq<char>) -> bool {
        exists|i: int|
            0 <= i < self.ignore_directories@.len() && contains_seq(
                dir_name,
                #[trigger] self.ignore_directories@[i]@,
            )
    }

    /// Some ignore pattern applies to `file_name`.
    pub open spec fn ignores_file(&self, file_name: Seq<char>) -> bool {
        exists|i: int|
            0 <= i < self.ignore_file_patterns@.len() && file_pattern_applies(
                file_name,
                #[trigger] self.ignore_file_patterns@[i]@,
            )
    }

    /// `extension` with a dot before it is one of the searchable extensions.
    pub open spec fn lists_extension(&self, extension: Seq<char>) -> bool {
        exists|i: int|
            0 <= i < self.content_search_extensions@.len()
                && #[trigger] self.content_search_extensions@[i]@ == seq!['.'] + extension
    }

    /// The text of a file of this name is searched: its extension is listed,
    /// or it has no extension and a well-known name.
    pub open spec fn searches_content_of(&self, file_name: Seq<char>) -> bool {
        match extension_of(file_name) {
            Some(extension) => self.lists_extension(extension),
            None => is_known_text_name(file_name),
        }
    }

    /// The largest size in bytes of a file that is not left out.
    pub open spec fn size_ceiling(&self) -> int {
        self.max_file_size_mb as int * 1024 * 1024
    }

    /// Whether an entry of this name is left out as an ignored directory.
    pub fn should_ignore_directory(&self, dir_name: &str) -> (r: bool)
        ensures
            r == self.ignores_directory(dir_name@),
    {
        let name = chars_of(dir_name);
        let n = self.ignore_directories.len();
        let mut i: usize = 0;
        while i < n
            invariant
                n == self.ignore_directories@.len(),
                i <= n,
                name@ == dir_name@,
                forall|j: int|
                    0 <= j < i ==> !contains_seq(dir_name@, #[trigger] self.ignore_directories@[j]@),
            decreases n - i,
        {
            let fragment = chars_of(self.ignore_directories[i].as_str());
            if contains(&name, &fragment) {
                return true;
            }
            i += 1;
        }
        false
    }

    /// Whether an entry of this name is left out by an ignore pattern.
    pub fn should_ignore_file(&self, file_name: &str) -> (r: bool)
        ensures
            r == self.ignores_file(file_name@),
    {
        let name = chars_of(file_name);
        let n = self.ignore_file_patterns.len();
        let mut i: usize = 0;
        while i < n
            invariant
                n == self.ignore_file_patterns@.len(),
                i <= n,
                name@ == file_name@,
                forall|j: int|
                    0 <= j < i ==> !file_pattern_applies(
                        file_name@,
                        #[trigger] self.ignore_file_patterns@[j]@,
                    ),
            decreases n - i,
        {
            let mut pattern = chars_of(self.ignore_file_patterns[i].as_str());
            let applies = if pattern.len() >= 2 && pattern[0] == '*' && pattern[1] == '.' {
                let extension = pattern.split_off(2);
                ends_with(&name, &extension)
            } else {
                contains(&name, &pattern)
            };
            if applies {
                return true;
            }
            i += 1;
        }
        false
    }

    /// Whether the text of a file of this name is searched.
    pub fn is_content_searchable(&self, file_name: &str) -> (r: bool)
        ensures
            r == self.searches_content_of(file_name@),
    {
        let name = chars_of(file_name);
        let is_parent = name.len() == 2 && name[0] == '.' && name[1] == '.';
        assert(is_parent == (name@ =~= seq!['.', '.']));
        let dot = match find_last(&name, '.') {
            Some(d) => if d == 0 || is_parent {
                None
            } else {
                Some(d)
            },
            None => None,
        };
        match dot {
            Some(d) => {
                let mut wanted: Vec<char> = Vec::new();
                wanted.push('.');
                let mut k = d + 1;
                while k < name.len()
                    invariant
                        d + 1 <= k <= name.len(),
                        wanted@ == seq!['.'] + name@.subrange(d + 1, k as int),
                    decreases name.len() - k,
                {
                    wanted.push(name[k]);
                    k += 1;
                }
                let n = self.content_search_extensions.len();
                let mut i: usize = 0;
                while i < n
                    invariant
                        n == self.content_search_extensions@.len(),
                        i <= n,
                        wanted@ == seq!['.'] + name@.skip(d + 1),
                        self.searches_content_of(file_name@) == self.lists_extension(
                            name@.skip(d + 1),
                        ),
                        forall|j: int|
                            0 <= j < i ==> #[trigger] self.content_search_extensions@[j]@
                                != wanted@,
                    decreases n - i,
                {
                    let listed = chars_of(self.content_search_extensions[i].as_str());
                    if same_chars(&listed, &wanted) {
                        return true;
                    }
                    i += 1;
                }
                false
            },
            None => same_text(file_name, "README") || same_text(file_name, "Makefile") || same_text(
                file_name,
                "Dockerfile",
            ) || same_text(file_name, "LICENSE"),
        }
    }

    /// The number of threads to work with on this machine.
    pub fn get_effective_thread_count(&self, cli_threads: Option<usize>, max_cpu_flag: bool) -> (r:
        usize)
        ensures
            exists|cores: usize|
                cores >= 1 && r == #[trigger] thread_count_for(
                    cli_threads,
                    self.max_parallel_threads,
                    max_cpu_flag,
                    cores,
                ),
            cli_threads matches Some(threads) ==> r == threads,
            cli_threads is None ==> (self.max_parallel_threads matches Some(threads) ==> r
                == threads),
            r >= 1 || cli_threads == Some(0usize) || (cli_threads is None
                && self.max_parallel_threads == Some(0usize)),
    {
        let cores = detected_cores();
        effective_thread_count(cli_threads, self.max_parallel_threads, max_cpu_flag, cores)
    }
}

/// The directory fragments ignored by default.
pub open spec fn default_ignore_directories() -> Seq<Seq<char>> {
    seq![
        "node_modules"@,
        "target"@,
        "build"@,
        ".git"@,
        "AppData"@,
        "Windows"@,
        "System32"@,
        "Cache"@,
        "Temp"@,
        ".cache"@,
    ]
}

/// The file patterns ignored by default.
pub open spec fn default_ignore_file_patterns() -> Seq<Seq<char>> {
    seq!["*.tmp"@, "*.log"@, "*.bak"@, "*.swp"@, "thumbs.db"@, ".DS_Store"@]
}

/// The extensions whose text is searched by default.
pub open spec fn default_content_search_extensions() -> Seq<Seq<char>> {
    seq![
        ".rs"@,
        ".py"@,
        ".js"@,
        ".ts"@,
        ".java"@,
        ".cpp"@,
        ".c"@,
        ".h"@,
        ".txt"@,
        ".md"@,
        ".json"@,
        ".yaml"@,
        ".yml"@,
        ".toml"@,
        ".cfg"@,
    ]
}

impl Config {
    /// The settings hold the default values.
    pub open spec fn is_default(&self) -> bool {
        &&& self.ignore_directories.deep_view() == default_ignore_directories()
        &&& self.ignore_file_patterns.deep_view() == default_ignore_file_patterns()
        &&& self.max_memory_mb == 1024
        &&& self.max_files_per_search == 50000
        &&& self.max_parallel_threads is None
        &&& self.max_file_size_mb == 10
        &&& !self.include_hidden
        &&& !self.follow_symlinks
        &&& self.content_search_extensions.deep_view() == default_content_search_extensions()
        &&& self.default_search_options.match_mode@ == "fuzzy"@
        &&& !self.default_search_options.case_sensitive
        &&& self.output_options.show_details
        &&& self.output_options.color_theme@ == "default"@
        &&& self.output_options.max_content_matches == 3
        &&& self.output_options.max_line_length == 100
    }
}

impl Default for Config {
    fn default() -> (r: Self)
        ensures
            r.is_default(),
    {
        let ignore_directories = vec![
            "node_modules".to_owned(),
            "target".to_owned(),
            "build".to_owned(),
            ".git".to_owned(),
            "AppData".to_owned(),
            "Windows".to_owned(),
            "System32".to_owned(),
            "Cache".to_owned(),
            "Temp".to_owned(),
            ".cache".to_owned(),
        ];
        let ignore_file_patterns = vec![
            "*.tmp".to_owned(),
            "*.log".to_owned(),
            "*.bak".to_owned(),
            "*.swp".to_owned(),
            "thumbs.db".to_owned(),
            ".DS_Store".to_owned(),
        ];
        let content_search_extensions = vec![
            ".rs".to_owned(),
            ".py".to_owned(),
            ".js".to_owned(),
            ".ts".to_owned(),
            ".java".to_owned(),
            ".cpp".to_owned(),
            ".c".to_owned(),
            ".h".to_owned(),
            ".txt".to_owned(),
            ".md".to_owned(),
            ".json".to_owned(),
            ".yaml".to_owned(),
            ".yml".to_owned(),
            ".toml".to_owned(),
            ".cfg".to_owned(),
        ];
        assert(ignore_directories.deep_view() =~= default_ignore_directories());
        assert(ignore_file_patterns.deep_view() =~= default_ignore_file_patterns());
        assert(content_search_extensions.deep_view() =~= default_content_search_extensions());
        Config {
            ignore_directories,
            ignore_file_patterns,
            max_memory_mb: 1024,
            max_files_per_search: 50000,
            max_parallel_threads: None,
            max_file_size_mb: 10,
            include_hidden: false,
            follow_symlinks: false,
            content_search_extensions,
            default_search_options: DefaultSearchOptions {
                match_mode: "fuzzy".to_owned(),
                case_sensitive: false,
            },
            output_options: OutputOptions {
                show_details: true,
                color_theme: "default".to_owned(),
                max_content_matches: 3,
                max_line_length: 100,
            },
        }
    }
}

} // verus!
