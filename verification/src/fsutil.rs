//! File-system access as a set of injected functions.
//!
//! Not every platform offers the file system of the standard library, so the
//! code that loads and resolves source files goes through an [`FSUtil`],
//! which holds the six operations it needs as plain functions. The module
//! [`default`] has the path operations for platforms with `std::path`.

pub mod default;

use vstd::prelude::*;

verus! {

/// The file-system operations that loading source files and resolving
/// imports rely on. Each method hands its arguments to the function that the
/// value was built with and returns what that function returns.
pub struct FSUtil<R, E, D, J, P, A> where
    R: Fn(&str) -> Option<String>,
    E: Fn(&str) -> bool,
    D: Fn(&str) -> bool,
    J: Fn(&str, &str) -> String,
    P: Fn(&str) -> String,
    A: Fn(&str) -> bool,
 {
    /// Reads the content of a file.
    read_file: R,
    /// Checks whether a file exists.
    file_exists: E,
    /// Checks whether a path names a directory.
    file_is_directory: D,
    /// Joins a base and a path into one path.
    path_join: J,
    /// Gives the parent directory of a path.
    parent_directory: P,
    /// Checks whether a path is absolute.
    path_is_absolute: A,
}

impl<R, E, D, J, P, A> FSUtil<R, E, D, J, P, A> where
    R: Fn(&str) -> Option<String>,
    E: Fn(&str) -> bool,
    D: Fn(&str) -> bool,
    J: Fn(&str, &str) -> String,
    P: Fn(&str) -> String,
    A: Fn(&str) -> bool,
 {
    /// The function that reads a file.
    pub closed spec fn read_file_fn(&self) -> R {
        self.read_file
    }

    /// The function that checks whether a file exists.
    pub closed spec fn file_exists_fn(&self) -> E {
        self.file_exists
    }

    /// The function that checks whether a path names a directory.
    pub closed spec fn file_is_directory_fn(&self) -> D {
        self.file_is_directory
    }

    /// The function that joins two paths.
    pub closed spec fn path_join_fn(&self) -> J {
        self.path_join
    }

    /// The function that gives the parent directory of a path.
    pub closed spec fn parent_directory_fn(&self) -> P {
        self.parent_directory
    }

    /// The function that checks whether a path is absolute.
    pub closed spec fn path_is_absolute_fn(&self) -> A {
        self.path_is_absolute
    }

    /// A file-system utility made of the six given functions.
    pub fn new(
        read_file: R,
        file_exists: E,
        file_is_directory: D,
        path_join: J,
        parent_directory: P,
        path_is_absolute: A,
    ) -> (fs: Self)
        ensures
            fs.read_file_fn() == read_file,
            fs.file_exists_fn() == file_exists,
            fs.file_is_directory_fn() == file_is_directory,
            fs.path_join_fn() == path_join,
            fs.parent_directory_fn() == parent_directory,
            fs.path_is_absolute_fn() == path_is_absolute,
    {
        Self {
            read_file,
            file_exists,
            file_is_directory,
            path_join,
            parent_directory,
            path_is_absolute,
        }
    }

    /// Reads the content of the file at `path`; `None` if the file does not
    /// exist or cannot be read.
    pub fn read_file(&self, path: &str) -> (content: Option<String>)
        requires
            call_requires(self.read_file_fn(), (path,)),
        ensures
            call_ensures(self.read_file_fn(), (path,), content),
    {
        (self.read_file)(path)
    }

    /// Whether a file exists at `path`.
    pub fn file_exists(&self, path: &str) -> (exists: bool)
        requires
            call_requires(self.file_exists_fn(), (path,)),
        ensures
            call_ensures(self.file_exists_fn(), (path,), exists),
    {
        (self.file_exists)(path)
    }

    /// Whether `path` names a directory.
    pub fn file_is_directory(&self, path: &str) -> (is_directory: bool)
        requires
            call_requires(self.file_is_directory_fn(), (path,)),
        ensures
            call_ensures(self.file_is_directory_fn(), (path,), is_directory),
    {
        (self.file_is_directory)(path)
    }

    /// The path that `base` and `path` join to.
    pub fn path_join(&self, base: &str, path: &str) -> (joined: String)
        requires
            call_requires(self.path_join_fn(), (base, path)),
        ensures
            call_ensures(self.path_join_fn(), (base, path), joined),
    {
        (self.path_join)(base, path)
    }

    /// The parent directory of `path`.
    pub fn parent_directory(&self, path: &str) -> (parent: String)
        requires
            call_requires(self.parent_directory_fn(), (path,)),
        ensures
            call_ensures(self.parent_directory_fn(), (path,), parent),
    {
        (self.parent_directory)(path)
    }

    /// Whether `path` is absolute.
    pub fn path_is_absolute(&self, path: &str) -> (is_absolute: bool)
        requires
            call_requires(self.path_is_absolute_fn(), (path,)),
        ensures
            call_ensures(self.path_is_absolute_fn(), (path,), is_absolute),
    {
        (self.path_is_absolute)(path)
    }

    /// Resolves `path` against the file that names it: the parent directory
    /// of `source_path`, joined with `path`.
    pub fn import_path(&self, source_path: &str, path: &str) -> (resolved: String)
        requires
            call_requires(self.parent_directory_fn(), (source_path,)),
            forall|parent: String, directory: &str|
                call_ensures(self.parent_directory_fn(), (source_path,), parent) && directory@
                    == parent@ ==> call_requires(self.path_join_fn(), (directory, path)),
        ensures
            exists|parent: String, directory: &str|
                call_ensures(self.parent_directory_fn(), (source_path,), parent) && directory@
                    == parent@ && call_ensures(self.path_join_fn(), (directory, path), resolved),
    {
        let parent = (self.parent_directory)(source_path);
        (self.path_join)(parent.as_str(), path)
    }
}

} // verus!
