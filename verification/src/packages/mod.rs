//! Built-in function packages available to scripts.
use vstd::prelude::*;
use std::rc::Rc;
use crate::module::Module;

pub mod arithmetic;
pub mod lang_core;
pub mod logic;
pub mod map_basic;
pub mod math_basic;
pub mod string_basic;

verus! {

/// What a package of functions provides: it registers its functions into a module, and
/// hands out the shared module that holds them.
pub trait Package {
    /// Register all the functions of the package into `lib`.
    fn init(lib: &mut Module);

    /// The shared module that holds the functions of the package.
    fn as_shared_module(&self) -> Rc<Module>;
}

} // verus!
