//! Pure decisions behind command-line flag handling: exclusive yes/no flag
//! pairs, and the order of preference among cache locations.

use vstd::prelude::*;

verus! {

/// Resolves an exclusive pair of yes/no flags: set means `Some` of its
/// polarity, neither set means no opinion. The two flags exclude each other.
pub fn flag(yes: bool, no: bool) -> (r: Option<bool>)
    requires
        !(yes && no),
    ensures
        r == (if yes {
            Some(true)
        } else if no {
            Some(false)
        } else {
            None::<bool>
        }),
{
    match (yes, no) {
        (true, false) => Some(true),
        (false, true) => Some(false),
        (false, false) => None,
        (true, true) => None,
    }
}

/// The cache-related command-line arguments.
#[derive(Debug, Clone)]
pub struct CacheArgs {
    /// Avoid reading from or writing to the cache.
    pub no_cache: Option<bool>,
    /// Path to the cache directory.
    pub cache_dir: Option<String>,
}

/// Where the cache goes.
#[derive(Debug)]
pub enum CacheChoice {
    /// A temporary directory, discarded afterwards.
    Temporary,
    /// The named directory.
    Directory(String),
}

/// The view of a cache choice.
pub ghost enum CacheChoiceView {
    Temporary,
    Directory(Seq<char>),
}

impl View for CacheChoice {
    type V = CacheChoiceView;

    open spec fn view(&self) -> CacheChoiceView {
        match self {
            CacheChoice::Temporary => CacheChoiceView::Temporary,
            CacheChoice::Directory(d) => CacheChoiceView::Directory(d@),
        }
    }
}

/// The preference order among cache locations: a temporary directory when
/// the cache is declined; else the directory the caller named; else the
/// system-appropriate cache directory; else `.uv_cache` in the working
/// directory.
pub open spec fn spec_cache_choice(
    no_cache: Option<bool>,
    cache_dir: Option<Seq<char>>,
    system_dir: Option<Seq<char>>,
) -> CacheChoiceView {
    if no_cache == Some(true) {
        CacheChoiceView::Temporary
    } else {
        match cache_dir {
            Some(d) => CacheChoiceView::Directory(d),
            None => match system_dir {
                Some(d) => CacheChoiceView::Directory(d),
                None => CacheChoiceView::Directory(".uv_cache"@),
            },
        }
    }
}

/// Decides where the cache goes. `system_dir` is the system-appropriate
/// cache directory, when the platform knows one; looking it up is the
/// caller's task.
pub fn cache_choice(
    no_cache: Option<bool>,
    cache_dir: Option<String>,
    system_dir: Option<String>,
) -> (r: CacheChoice)
    ensures
        r@ == spec_cache_choice(
            no_cache,
            crate::pyproject::opt_str_view(&cache_dir),
            crate::pyproject::opt_str_view(&system_dir),
        ),
{
    let declined = match no_cache {
        Option::Some(b) => b,
        Option::None => false,
    };
    if declined {
        CacheChoice::Temporary
    } else {
        match cache_dir {
            Option::Some(d) => CacheChoice::Directory(d),
            Option::None => match system_dir {
                Option::Some(d) => CacheChoice::Directory(d),
                Option::None => CacheChoice::Directory(".uv_cache".to_owned()),
            },
        }
    }
}

} // verus!
