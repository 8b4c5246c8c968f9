//! A module resolver that loads scripts from files, with a cache of the modules loaded.
use std::path::PathBuf;
use std::rc::Rc;
use vstd::prelude::*;
use crate::error::EvalAltResult;
use crate::entries::{
    entries_view, find_entry, keys_distinct, lemma_view_absent, lemma_view_at, lemma_view_contains, lemma_view_push,
    lemma_view_remove,
    lemma_view_update,
};
use crate::module::Module;
use crate::position::Position;
use crate::text::contains_char;

verus! {

/// The default extension of script files.
pub const RHAI_SCRIPT_EXTENSION: &'static str = "rhai";


/// The module cached under a file path, if any.
pub open spec fn lookup(m: Map<Seq<char>, Rc<Module>>, k: Seq<char>) -> Option<Rc<Module>> {
    if m.contains_key(k) {
        Some(m[k])
    } else {
        None
    }
}

/// The rules of `std::path` on the platform the library runs on, told apart by the
/// platform's main path separator. Only `path_rules` makes one.
#[derive(Debug)]
pub struct PathRules {
    separator: char,
}

/// `std::path::MAIN_SEPARATOR`: the path rules of this platform. Nothing is stated of
/// which separator it is.
#[verifier::external_body]
fn path_rules() -> (r: PathRules) {
    PathRules { separator: std::path::MAIN_SEPARATOR }
}

/// What `Path::is_relative` answers for a path under the path rules of platforms with
/// this main separator.
pub uninterp spec fn path_relative_on(separator: char, path: Seq<char>) -> bool;

/// What `PathBuf::push` makes of `base` and `path` under the path rules of platforms with
/// this main separator.
pub uninterp spec fn path_pushed_on(separator: char, base: Seq<char>, path: Seq<char>) -> Seq<char>;

/// What `PathBuf::set_extension` makes of `path` and `extension` under the path rules of
/// platforms with this main separator.
pub uninterp spec fn path_with_extension_on(separator: char, path: Seq<char>, extension: Seq<char>) -> Seq<char>;

/// What `Path::parent` answers for a path under the path rules of platforms with this
/// main separator.
pub uninterp spec fn path_parent_on(separator: char, path: Seq<char>) -> Option<Seq<char>>;

/// `Path::is_relative` on this platform: its answer is named `path_relative_on`.
#[verifier::external_body]
fn path_is_relative(rules: &PathRules, path: &str) -> (r: bool)
    ensures
        r == path_relative_on(rules.separator, path@),
{
    std::path::Path::new(path).is_relative()
}

/// `PathBuf::push` on this platform (the pushed path, as text): named `path_pushed_on`.
#[verifier::external_body]
fn path_push(rules: &PathRules, base: &str, path: &str) -> (r: String)
    ensures
        r@ == path_pushed_on(rules.separator, base@, path@),
{
    let mut p = PathBuf::from(base);
    p.push(path);
    p.to_string_lossy().into_owned()
}

/// Can `PathBuf::set_extension` take this extension under the path rules of platforms with
/// this main separator? It panics on an extension that holds a path separator: `/`, and the
/// main separator.
pub open spec fn extension_fits(separator: char, extension: Seq<char>) -> bool {
    !extension.contains(separator) && !extension.contains('/')
}

/// `PathBuf::set_extension` on this platform (the changed path, as text): named
/// `path_with_extension_on`; the extension holds no path separator.
#[verifier::external_body]
fn path_set_extension(rules: &PathRules, path: &str, extension: &str) -> (r: String)
    requires
        extension_fits(rules.separator, extension@),
    ensures
        r@ == path_with_extension_on(rules.separator, path@, extension@),
{
    let mut p = PathBuf::from(path);
    p.set_extension(extension);
    p.to_string_lossy().into_owned()
}

/// `Path::parent` on this platform (the directory part, as text, if any): named
/// `path_parent_on`.
#[verifier::external_body]
fn path_parent(rules: &PathRules, path: &str) -> (r: Option<String>)
    ensures
        match r {
            Some(d) => path_parent_on(rules.separator, path@) == Some(d@),
            None => path_parent_on(rules.separator, path@) is None,
        },
{
    std::path::Path::new(path).parent().map(|p| p.to_string_lossy().into_owned())
}

/// The text of an optional path.
pub open spec fn opt_text(p: Option<&str>) -> Option<Seq<char>> {
    match p {
        Some(t) => Some(t@),
        None => None,
    }
}

/// The directory a relative path is taken from: the base path where one is set, else the
/// directory of the importing script where there is one, else the current directory (the
/// empty path).
pub open spec fn relative_base_of(base_path: Option<Seq<char>>, source_path: Option<Seq<char>>) -> Seq<char> {
    match base_path {
        Some(b) => b,
        None => match source_path {
            Some(p) => p,
            None => Seq::empty(),
        },
    }
}

/// What became of loading a script file and evaluating it into a module.
pub enum ModuleLoad {
    /// The module made from the script.
    Loaded(Rc<Module>),
    /// The file could not be read.
    NotFound,
    /// The script did not compile, or failed while it was evaluated.
    Failed(Box<EvalAltResult>),
}

/// A module resolver that loads scripts from files: relative paths are taken from a base
/// path, or else from the directory of the importing script; the extension of the file
/// is forced; loaded modules are kept in a cache keyed by file path.
pub struct FileModuleResolver {
    base_path: Option<String>,
    extension: String,
    cache_enabled: bool,
    cache: Vec<(String, Rc<Module>)>,
    rules: PathRules,
}

impl FileModuleResolver {
    /// The base path, if one is set.
    pub closed spec fn spec_base_path(&self) -> Option<Seq<char>> {
        match self.base_path {
            Some(p) => Some(p@),
            None => None,
        }
    }

    /// The extension forced on script files.
    pub closed spec fn spec_extension(&self) -> Seq<char> {
        self.extension@
    }

    /// Is the cache in use?
    pub closed spec fn spec_cache_enabled(&self) -> bool {
        self.cache_enabled
    }

    /// The cached modules, by file path.
    pub closed spec fn cached(&self) -> Map<Seq<char>, Rc<Module>> {
        entries_view(self.cache@)
    }

    /// The main path separator of the platform, which tells its path rules apart.
    pub closed spec fn spec_separator(&self) -> char {
        self.rules.separator
    }

    /// The file path of a script: a relative `path` is pushed onto `relative_base_of`, an
    /// absolute one is taken as it is; then the extension is forced. All by the path rules
    /// of the platform.
    pub closed spec fn file_path_of(&self, path: Seq<char>, source_path: Option<Seq<char>>) -> Seq<char> {
        let sep = self.rules.separator;
        let joined = if path_relative_on(sep, path) {
            path_pushed_on(sep, relative_base_of(self.spec_base_path(), source_path), path)
        } else {
            path
        };
        path_with_extension_on(sep, joined, self.spec_extension())
    }

    /// The directory of the importing script, by the path rules of the platform.
    pub closed spec fn source_dir_of(&self, source_path: Option<Seq<char>>) -> Option<Seq<char>> {
        match source_path {
            Some(p) => path_parent_on(self.rules.separator, p),
            None => None,
        }
    }

    /// Can file paths be built with the extension: does it hold no path separator?
    pub open spec fn extension_usable(&self) -> bool {
        extension_fits(self.spec_separator(), self.spec_extension())
    }

    /// The resolver's invariant: each file path is cached at most once.
    pub closed spec fn wf(&self) -> bool {
        keys_distinct(self.cache@)
    }

    /// A resolver with no base path and the extension `"rhai"`, its cache on and empty.
    pub fn new() -> (r: Self)
        ensures
            r.wf(),
            r.spec_base_path() is None,
            r.spec_extension() == RHAI_SCRIPT_EXTENSION@,
            r.spec_cache_enabled(),
            r.cached() == Map::<Seq<char>, Rc<Module>>::empty(),
    {
        Self::new_with_extension(String::from_str(RHAI_SCRIPT_EXTENSION))
    }

    /// A resolver with a base path and the extension `"rhai"`, its cache on and empty.
    pub fn new_with_path(path: String) -> (r: Self)
        ensures
            r.wf(),
            r.spec_base_path() == Some(path@),
            r.spec_extension() == RHAI_SCRIPT_EXTENSION@,
            r.spec_cache_enabled(),
            r.cached() == Map::<Seq<char>, Rc<Module>>::empty(),
    {
        Self::new_with_path_and_extension(path, String::from_str(RHAI_SCRIPT_EXTENSION))
    }

    /// A resolver with no base path and the given extension, its cache on and empty.
    pub fn new_with_extension(extension: String) -> (r: Self)
        ensures
            r.wf(),
            r.spec_base_path() is None,
            r.spec_extension() == extension@,
            r.spec_cache_enabled(),
            r.cached() == Map::<Seq<char>, Rc<Module>>::empty(),
    {
        let r = FileModuleResolver { base_path: None, extension, cache_enabled: true, cache: Vec::new(), rules: path_rules() };
        assert(r.cached() =~= Map::<Seq<char>, Rc<Module>>::empty());
        r
    }

    /// A resolver with a base path and the given extension, its cache on and empty.
    pub fn new_with_path_and_extension(path: String, extension: String) -> (r: Self)
        ensures
            r.wf(),
            r.spec_base_path() == Some(path@),
            r.spec_extension() == extension@,
            r.spec_cache_enabled(),
            r.cached() == Map::<Seq<char>, Rc<Module>>::empty(),
    {
        let r = FileModuleResolver { base_path: Some(path), extension, cache_enabled: true, cache: Vec::new(), rules: path_rules() };
        assert(r.cached() =~= Map::<Seq<char>, Rc<Module>>::empty());
        r
    }

    /// The base path, if one is set.
    pub fn base_path(&self) -> (r: Option<&str>)
        ensures
            match r {
                Some(p) => self.spec_base_path() == Some(p@),
                None => self.spec_base_path() is None,
            },
    {
        match &self.base_path {
            Some(p) => Some(p.as_str()),
            None => None,
        }
    }

    /// Set the base path.
    pub fn set_base_path(&mut self, path: String) -> (r: &mut Self)
        ensures
            r.spec_base_path() == Some(path@),
            r.spec_extension() == old(self).spec_extension(),
            r.spec_cache_enabled() == old(self).spec_cache_enabled(),
            r.spec_separator() == old(self).spec_separator(),
            r.cached() == old(self).cached(),
            r.wf() == old(self).wf(),
            *final(self) == *final(r),
    {
        self.base_path = Some(path);
        self
    }

    /// The extension forced on script files.
    pub fn extension(&self) -> (r: &str)
        ensures
            r@ == self.spec_extension(),
    {
        self.extension.as_str()
    }

    /// Does the extension hold no path separator, so that file paths can be built with it?
    pub fn has_usable_extension(&self) -> (r: bool)
        ensures
            r == self.extension_usable(),
    {
        !contains_char(self.extension.as_str(), self.rules.separator) && !contains_char(self.extension.as_str(), '/')
    }

    /// Set the extension forced on script files.
    pub fn set_extension(&mut self, extension: String) -> (r: &mut Self)
        ensures
            r.spec_extension() == extension@,
            r.spec_base_path() == old(self).spec_base_path(),
            r.spec_cache_enabled() == old(self).spec_cache_enabled(),
            r.spec_separator() == old(self).spec_separator(),
            r.cached() == old(self).cached(),
            r.wf() == old(self).wf(),
            *final(self) == *final(r),
    {
        self.extension = extension;
        self
    }

    /// Turn the cache on or off.
    pub fn enable_cache(&mut self, enable: bool) -> (r: &mut Self)
        ensures
            r.spec_cache_enabled() == enable,
            r.spec_separator() == old(self).spec_separator(),
            r.spec_base_path() == old(self).spec_base_path(),
            r.spec_extension() == old(self).spec_extension(),
            r.cached() == old(self).cached(),
            r.wf() == old(self).wf(),
            *final(self) == *final(r),
    {
        self.cache_enabled = enable;
        self
    }

    /// Is the cache in use?
    pub fn is_cache_enabled(&self) -> (r: bool)
        ensures
            r == self.spec_cache_enabled(),
    {
        self.cache_enabled
    }

    /// The directory that a relative path is taken from: the base path where one is set,
    /// else the directory of the importing script where there is one, else the current
    /// directory (the empty path).
    pub fn relative_base(&self, source_path: Option<&str>) -> (r: String)
        ensures
            r@ == relative_base_of(self.spec_base_path(), opt_text(source_path)),
    {
        match &self.base_path {
            Some(b) => b.clone(),
            None => match source_path {
                Some(p) => String::from_str(p),
                None => String::new(),
            },
        }
    }

    /// The file path of a script: a relative `path` is pushed onto `relative_base`, an
    /// absolute one is taken as it is; then the extension is forced.
    fn get_file_path(&self, path: &str, source_path: Option<&str>) -> (r: String)
        requires
            self.extension_usable(),
        ensures
            r@ == self.file_path_of(path@, opt_text(source_path)),
    {
        let file_path = if path_is_relative(&self.rules, path) {
            let base = self.relative_base(source_path);
            path_push(&self.rules, base.as_str(), path)
        } else {
            String::from_str(path)
        };
        path_set_extension(&self.rules, file_path.as_str(), self.extension.as_str())
    }

    /// Is the module of this file path in the cache (with the cache in use)?
    pub fn is_file_cached(&self, file_path: &str) -> (r: bool)
        ensures
            r == (self.spec_cache_enabled() && self.cached().contains_key(file_path@)),
    {
        if !self.cache_enabled {
            return false;
        }
        match find_entry(&self.cache, file_path) {
            Some(i) => {
                proof {
                    lemma_view_contains(self.cache@, i as int);
                }
                true
            },
            None => {
                proof {
                    lemma_view_absent(self.cache@, file_path@);
                }
                false
            },
        }
    }

    /// Is the module of this script in the cache (with the cache in use)? The file path
    /// of the script is built as `get_file_path` does.
    pub fn is_cached(&self, path: &str, source_path: Option<&str>) -> (r: bool)
        requires
            self.spec_cache_enabled() ==> self.extension_usable(),
        ensures
            r == (self.spec_cache_enabled() && self.cached().contains_key(
                self.file_path_of(path@, opt_text(source_path)),
            )),
    {
        if !self.cache_enabled {
            return false;
        }
        let file_path = self.get_file_path(path, source_path);
        self.is_file_cached(file_path.as_str())
    }

    /// The cached module of this file path, if the cache is in use and holds one.
    pub fn cached_module(&self, file_path: &str) -> (r: Option<Rc<Module>>)
        requires
            self.wf(),
        ensures
            r == (if self.spec_cache_enabled() {
                lookup(self.cached(), file_path@)
            } else {
                None
            }),
    {
        if !self.cache_enabled {
            return None;
        }
        match find_entry(&self.cache, file_path) {
            Some(i) => {
                proof {
                    lemma_view_at(self.cache@, i as int);
                }
                Some(self.cache[i].1.clone())
            },
            None => {
                proof {
                    lemma_view_absent(self.cache@, file_path@);
                }
                None
            },
        }
    }

    /// Keep a loaded module in the cache under its file path, if the cache is in use;
    /// a module cached before under that path is replaced.
    pub fn store_module(&mut self, file_path: String, module: Rc<Module>)
        requires
            old(self).wf(),
        ensures
            final(self).wf(),
            final(self).spec_base_path() == old(self).spec_base_path(),
            final(self).spec_extension() == old(self).spec_extension(),
            final(self).spec_cache_enabled() == old(self).spec_cache_enabled(),
            final(self).spec_separator() == old(self).spec_separator(),
            final(self).cached() == (if old(self).spec_cache_enabled() {
                old(self).cached().insert(file_path@, module)
            } else {
                old(self).cached()
            }),
    {
        if !self.cache_enabled {
            return;
        }
        match find_entry(&self.cache, file_path.as_str()) {
            Some(i) => {
                proof {
                    lemma_view_update(self.cache@, i as int, (file_path, module));
                }
                self.cache.set(i, (file_path, module));
            },
            None => {
                proof {
                    lemma_view_absent(self.cache@, file_path@);
                    lemma_view_push(self.cache@, (file_path, module));
                }
                self.cache.push((file_path, module));
            },
        }
    }

    /// Empty the cache.
    pub fn clear_cache(&mut self) -> (r: &mut Self)
        ensures
            r.wf(),
            r.cached() == Map::<Seq<char>, Rc<Module>>::empty(),
            r.spec_base_path() == old(self).spec_base_path(),
            r.spec_extension() == old(self).spec_extension(),
            r.spec_cache_enabled() == old(self).spec_cache_enabled(),
            r.spec_separator() == old(self).spec_separator(),
            *final(self) == *final(r),
    {
        self.cache = Vec::new();
        assert(self.cached() =~= Map::<Seq<char>, Rc<Module>>::empty());
        self
    }

    /// Take the module of this file path out of the cache, and hand it back if there
    /// was one.
    pub fn clear_cache_for_file(&mut self, file_path: &str) -> (r: Option<Rc<Module>>)
        requires
            old(self).wf(),
        ensures
            final(self).wf(),
            r == lookup(old(self).cached(), file_path@),
            final(self).cached() == old(self).cached().remove(file_path@),
            final(self).spec_base_path() == old(self).spec_base_path(),
            final(self).spec_extension() == old(self).spec_extension(),
            final(self).spec_cache_enabled() == old(self).spec_cache_enabled(),
            final(self).spec_separator() == old(self).spec_separator(),
    {
        match find_entry(&self.cache, file_path) {
            Some(i) => {
                proof {
                    lemma_view_at(self.cache@, i as int);
                    lemma_view_remove(self.cache@, i as int);
                }
                let (_, m) = self.cache.remove(i);
                Some(m)
            },
            None => {
                proof {
                    lemma_view_absent(self.cache@, file_path@);
                    assert(self.cached().remove(file_path@) =~= self.cached());
                }
                None
            },
        }
    }

    /// Take the module of this script out of the cache, and hand it back if there was
    /// one. The file path of the script is built as `get_file_path` does.
    pub fn clear_cache_for_path(&mut self, path: &str, source_path: Option<&str>) -> (r: Option<Rc<Module>>)
        requires
            old(self).wf(),
            old(self).extension_usable(),
        ensures
            final(self).wf(),
            r == lookup(old(self).cached(), old(self).file_path_of(path@, opt_text(source_path))),
            final(self).cached() == old(self).cached().remove(old(self).file_path_of(path@, opt_text(source_path))),
            final(self).spec_base_path() == old(self).spec_base_path(),
            final(self).spec_extension() == old(self).spec_extension(),
            final(self).spec_cache_enabled() == old(self).spec_cache_enabled(),
            final(self).spec_separator() == old(self).spec_separator(),
    {
        let file_path = self.get_file_path(path, source_path);
        self.clear_cache_for_file(file_path.as_str())
    }
}

/// What the cache gives back of what it was given: a module stored under a file path
/// is the one looked up under it, other paths keep what they had, and once the path is
/// cleared nothing is found under it.
pub proof fn law_cache_reads_store(before: Map<Seq<char>, Rc<Module>>, file_path: Seq<char>, module: Rc<Module>, other: Seq<char>)
    ensures
        lookup(before.insert(file_path, module), file_path) == Some(module),
        other != file_path ==> lookup(before.insert(file_path, module), other) == lookup(before, other),
        lookup(before.insert(file_path, module).remove(file_path), file_path) is None,
{
}

/// `e` is the error for a module that could not be loaded: a file that cannot be read is
/// a module that is not found; any other failure is an error inside the module.
pub open spec fn is_load_error(path: Seq<char>, pos: Position, outcome: ModuleLoad, e: EvalAltResult) -> bool {
    match outcome {
        ModuleLoad::Loaded(_) => false,
        ModuleLoad::NotFound => e matches EvalAltResult::ErrorModuleNotFound(n, p) && n@ == path && p == pos,
        ModuleLoad::Failed(inner) => e matches EvalAltResult::ErrorInModule(n, x, p) && n@ == path && x == inner
            && p == pos,
    }
}

impl FileModuleResolver {
    /// Resolve the module of a script path: the file path is built as `get_file_path` does,
    /// relative to the base path or else to the directory of the importing script
    /// (`source_path`); a module cached under it is returned as it is; otherwise `load`
    /// reads, compiles and evaluates the file, and a module it makes is cached (when the
    /// cache is in use) and returned. A file that cannot be read is reported as a module
    /// that is not found, any other failure as an error inside the module, both with the
    /// script path and `pos`.
    pub fn resolve<F: Fn(&str) -> ModuleLoad>(
        &mut self,
        load: &F,
        source_path: Option<&str>,
        path: &str,
        pos: Position,
    ) -> (r: Result<Rc<Module>, Box<EvalAltResult>>)
        requires
            old(self).wf(),
            old(self).extension_usable(),
            forall|p: &str| #[trigger] load.requires((p,)),
        ensures
            final(self).wf(),
            final(self).spec_base_path() == old(self).spec_base_path(),
            final(self).spec_extension() == old(self).spec_extension(),
            final(self).spec_cache_enabled() == old(self).spec_cache_enabled(),
            final(self).spec_separator() == old(self).spec_separator(),
            ({
                let fp = old(self).file_path_of(path@, old(self).source_dir_of(opt_text(source_path)));
                if old(self).spec_cache_enabled() && old(self).cached().contains_key(fp) {
                    r == Ok::<Rc<Module>, Box<EvalAltResult>>(old(self).cached()[fp]) && final(self).cached()
                        == old(self).cached()
                } else {
                    exists|file_path: &str, outcome: ModuleLoad|
                        file_path@ == fp && #[trigger] load.ensures((file_path,), outcome) && match outcome {
                            ModuleLoad::Loaded(m) => r == Ok::<Rc<Module>, Box<EvalAltResult>>(m) && final(self).cached()
                                == (if old(self).spec_cache_enabled() {
                                old(self).cached().insert(fp, m)
                            } else {
                                old(self).cached()
                            }),
                            _ => (r matches Err(e) && is_load_error(path@, pos, outcome, *e)) && final(self).cached()
                                == old(self).cached(),
                        }
                }
            }),
    {
        let parent = match source_path {
            Some(p) => path_parent(&self.rules, p),
            None => None,
        };
        let file_path = match &parent {
            Some(p) => self.get_file_path(path, Some(p.as_str())),
            None => self.get_file_path(path, None),
        };
        let fp: &str = file_path.as_str();
        assert(fp@ == self.file_path_of(path@, self.source_dir_of(opt_text(source_path))));
        if let Some(m) = self.cached_module(fp) {
            return Ok(m);
        }
        let outcome = load(fp);
        assert(load.ensures((fp,), outcome));
        match outcome {
            ModuleLoad::Loaded(m) => {
                self.store_module(String::from_str(fp), m.clone());
                Ok(m)
            },
            ModuleLoad::NotFound => Err(Box::new(EvalAltResult::ErrorModuleNotFound(String::from_str(path), pos))),
            ModuleLoad::Failed(e) => Err(Box::new(EvalAltResult::ErrorInModule(String::from_str(path), e, pos))),
        }
    }
}

} // verus!
