//! The command line and the configuration file.

use vstd::prelude::*;
use vstd::string::*;

verus! {

/// Where the configuration is read from unless the command line says otherwise.
pub const DEFAULT_CONFIG_PATH: &'static str = "./miner.toml";

/// What is written where there is no configuration yet.
pub const DEFAULT_CONFIG: &'static str = "[node]
address = \"127.0.0.1:3003\"

[miner]
public = \"<your public wallet address>\"

[threads]
count = 1";

/// The number of threads in the configuration that stands for one thread per processor.
pub const ALL_PROCESSORS: i32 = -1;

/// What the command line asks for.
#[derive(Debug)]
pub struct Options {
    /// Where the configuration is read from.
    pub config_path: String,
    /// Whether the full RandomX dataset is used.
    pub full_dataset: bool,
    /// Whether full pages are used.
    pub full_pages: bool,
    /// Whether the miner works for a pool.
    pub is_pool: bool,
}

/// The texts of these arguments.
pub open spec fn texts(args: Seq<String>) -> Seq<Seq<char>> {
    args.map_values(|a: String| a@)
}

/// Whether the argument at `i` says that the configuration is read from the next argument.
pub open spec fn names_config(args: Seq<Seq<char>>, i: int) -> bool {
    0 <= i && i + 1 < args.len() && args[i] == "--config"@
}

/// The path that the first `n` arguments settle on: what follows the last `--config` among them,
/// or the default.
pub open spec fn config_path(args: Seq<Seq<char>>, n: int) -> Seq<char>
    decreases n,
{
    if n <= 0 {
        DEFAULT_CONFIG_PATH@
    } else if names_config(args, n - 1) {
        args[n]
    } else {
        config_path(args, n - 1)
    }
}

/// Reads the command line. Every argument is looked at, whatever stands before it, and what is not
/// known is passed over.
pub fn parse_options(args: &Vec<String>) -> (r: Options)
    ensures
        r.config_path@ == config_path(texts(args@), args@.len() as int),
        r.full_dataset == !texts(args@).contains("--no-dataset"@),
        r.full_pages == !texts(args@).contains("--no-full-pages"@),
        r.is_pool == texts(args@).contains("--pool"@),
{
    let config_flag = String::from_str("--config");
    let dataset_flag = String::from_str("--no-dataset");
    let pages_flag = String::from_str("--no-full-pages");
    let pool_flag = String::from_str("--pool");
    let mut r = Options {
        config_path: String::from_str(DEFAULT_CONFIG_PATH),
        full_dataset: true,
        full_pages: true,
        is_pool: false,
    };
    let ghost all = texts(args@);
    let mut i: usize = 0;
    while i < args.len()
        invariant
            0 <= i <= args@.len(),
            all == texts(args@),
            config_flag@ == "--config"@,
            dataset_flag@ == "--no-dataset"@,
            pages_flag@ == "--no-full-pages"@,
            pool_flag@ == "--pool"@,
            r.config_path@ == config_path(all, i as int),
            r.full_dataset == !all.take(i as int).contains("--no-dataset"@),
            r.full_pages == !all.take(i as int).contains("--no-full-pages"@),
            r.is_pool == all.take(i as int).contains("--pool"@),
        decreases args@.len() - i,
    {
        proof {
            assert(all[i as int] == args@[i as int]@);
            lemma_contains_step(all, i as int, "--no-dataset"@);
            lemma_contains_step(all, i as int, "--no-full-pages"@);
            lemma_contains_step(all, i as int, "--pool"@);
        }
        if args[i] == config_flag && i + 1 < args.len() {
            r.config_path = args[i + 1].clone();
        }
        if args[i] == dataset_flag {
            r.full_dataset = false;
        }
        if args[i] == pages_flag {
            r.full_pages = false;
        }
        if args[i] == pool_flag {
            r.is_pool = true;
        }
        i += 1;
    }
    assert(all.take(i as int) =~= all);
    r
}

proof fn lemma_contains_step(args: Seq<Seq<char>>, i: int, text: Seq<char>)
    requires
        0 <= i < args.len(),
    ensures
        args.take(i + 1).contains(text) <==> args.take(i).contains(text) || args[i] == text,
{
    let now = args.take(i + 1);
    let before = args.take(i);
    assert(now =~= before.push(args[i]));
    if before.contains(text) {
        let k = choose|k: int| 0 <= k < before.len() && before[k] == text;
        assert(now[k] == text);
    }
    if args[i] == text {
        assert(now[i] == text);
    }
    if now.contains(text) {
        let k = choose|k: int| 0 <= k < now.len() && now[k] == text;
        if k < i {
            assert(before[k] == text);
        }
    }
}

/// The last `--config` with an argument behind it decides where the configuration is read from.
pub proof fn law_last_config_wins(args: Seq<Seq<char>>, i: int)
    requires
        names_config(args, i),
        forall|j: int| i < j < args.len() ==> !#[trigger] names_config(args, j),
    ensures
        config_path(args, args.len() as int) == args[i + 1],
{
    lemma_config_path_from(args, i, args.len() as int);
}

proof fn lemma_config_path_from(args: Seq<Seq<char>>, i: int, n: int)
    requires
        names_config(args, i),
        forall|j: int| i < j < args.len() ==> !#[trigger] names_config(args, j),
        i < n <= args.len(),
    ensures
        config_path(args, n) == args[i + 1],
    decreases n,
{
    if n - 1 > i {
        assert(!names_config(args, n - 1));
        lemma_config_path_from(args, i, n - 1);
    }
}

/// Without a `--config` that has an argument behind it, the default stands.
pub proof fn law_default_config_path(args: Seq<Seq<char>>, n: int)
    requires
        forall|j: int| 0 <= j < args.len() ==> !#[trigger] names_config(args, j),
        n <= args.len(),
    ensures
        config_path(args, n) == DEFAULT_CONFIG_PATH@,
    decreases n,
{
    if n > 0 {
        assert(!names_config(args, n - 1));
        law_default_config_path(args, n - 1);
    }
}

/// How many threads to start: as many as the configuration says, or one per processor.
pub fn resolve_thread_count(configured: i32, processors: usize) -> (r: i32)
    ensures
        r == (if configured == ALL_PROCESSORS {
            processors as i32
        } else {
            configured
        }),
{
    if configured == ALL_PROCESSORS {
        processors as i32
    } else {
        configured
    }
}

/// What is said when a configuration was written for the user to complete.
pub fn config_created_message(path: &str) -> (r: String)
    ensures
        r@ == "Created new config file: "@ + path@
            + ". Please replace <your public wallet address> in the config with your real miner address"@,
{
    let mut text = String::from_str("Created new config file: ");
    text.append(path);
    text.append(
        ". Please replace <your public wallet address> in the config with your real miner address",
    );
    text
}

/// The texts of arguments are those of each of them, in their order.
pub proof fn law_arguments_are_read_one_by_one(args: Seq<String>)
    ensures
        texts(args).len() == args.len(),
        forall|i: int| 0 <= i < args.len() ==> #[trigger] texts(args)[i] == args[i]@,
{
}

/// Where the configuration is read from, by the arguments themselves: what stands behind the last
/// `--config` that has something behind it, wherever that is and whatever stands around it, and
/// `./miner.toml` where there is no such `--config`.
pub proof fn law_config_path_by_the_arguments(args: Seq<Seq<char>>)
    ensures
        forall|i: int|
            0 <= i && i + 1 < args.len() && #[trigger] args[i] == "--config"@ && (forall|j: int|
                i < j && j + 1 < args.len() ==> #[trigger] args[j] != "--config"@) ==> config_path(
                args,
                args.len() as int,
            ) == args[i + 1],
        (forall|j: int| 0 <= j && j + 1 < args.len() ==> #[trigger] args[j] != "--config"@)
            ==> config_path(args, args.len() as int) == "./miner.toml"@,
{
    assert forall|i: int|
        0 <= i && i + 1 < args.len() && #[trigger] args[i] == "--config"@ && (forall|j: int|
            i < j && j + 1 < args.len() ==> #[trigger] args[j] != "--config"@) implies config_path(
        args,
        args.len() as int,
    ) == args[i + 1] by {
        assert forall|j: int| i < j < args.len() implies !#[trigger] names_config(args, j) by {
            if names_config(args, j) {
                assert(args[j] == "--config"@);
            }
        }
        law_last_config_wins(args, i);
    }
    if forall|j: int| 0 <= j && j + 1 < args.len() ==> #[trigger] args[j] != "--config"@ {
        assert forall|j: int| 0 <= j < args.len() implies !#[trigger] names_config(args, j) by {
            if names_config(args, j) {
                assert(args[j] == "--config"@);
            }
        }
        law_default_config_path(args, args.len() as int);
    }
}

/// Putting `--config` and a path at the end of any command line makes that path the one that
/// counts; putting anything else there that is no `--config` changes nothing, unless it completes a
/// `--config` that stood last.
pub proof fn law_appended_arguments(args: Seq<Seq<char>>, path: Seq<char>, word: Seq<char>)
    ensures
        config_path(args.push("--config"@).push(path), args.len() as int + 2) == path,
        word != "--config"@ && (args.len() == 0 || args.last() != "--config"@) ==> config_path(
            args.push(word),
            args.len() as int + 1,
        ) == config_path(args, args.len() as int),
        args.len() > 0 && args.last() == "--config"@ ==> config_path(
            args.push(word),
            args.len() as int + 1,
        ) == word,
{
    let n = args.len() as int;
    let both = args.push("--config"@).push(path);
    assert(both[n] == "--config"@);
    assert(both[n + 1] == path);
    assert(names_config(both, n));
    assert(!names_config(both, n + 1));
    assert(config_path(both, n + 1) == path);
    let longer = args.push(word);
    assert(!names_config(longer, n));
    if args.len() > 0 && args.last() == "--config"@ {
        assert(longer[n - 1] == "--config"@);
        assert(names_config(longer, n - 1));
        assert(config_path(longer, n) == word);
    } else {
        lemma_same_config_path(args, word, n);
    }
}

proof fn lemma_same_config_path(args: Seq<Seq<char>>, word: Seq<char>, n: int)
    requires
        0 <= n <= args.len(),
        args.len() == 0 || args.last() != "--config"@,
    ensures
        config_path(args.push(word), n) == config_path(args, n),
    decreases n,
{
    if n > 0 {
        lemma_same_config_path(args, word, n - 1);
        assert(args.push(word)[n - 1] == args[n - 1]);
        if n < args.len() {
            assert(args.push(word)[n] == args[n]);
        }
    }
}

} // verus!
