//! A value that was read from a file, kept until the file changes.
use vstd::prelude::*;

verus! {

/// When a file was last changed, in seconds and nanoseconds since 1970.
#[derive(Debug, Clone, Copy, PartialEq, Eq, Structural)]
pub struct FileStamp {
    pub secs: i64,
    pub nanos: u32,
}

/// A value, and when the file that it came from was last changed.
#[derive(Debug)]
pub struct FileCache<T> {
    pub inner: Option<(T, FileStamp)>,
}

/// Whether a cache holds the value of a file that was last changed at a time.
pub open spec fn is_fresh<T>(inner: Option<(T, FileStamp)>, modified: Option<FileStamp>) -> bool {
    inner is Some && modified is Some && (inner->0).1 == modified->0
}

impl<T: Clone> FileCache<T> {
    /// An empty cache.
    pub fn new() -> (r: Self)
        ensures
            r.inner is None,
    {
        FileCache { inner: None }
    }

    /// The value of a file. `modified` is when the file was last changed, nothing
    /// where that is not known. Where the cache does not hold the value, it is
    /// loaded; `load` also says when the file was last changed by then.
    pub fn get_or_load<F: FnOnce() -> (Result<T, String>, Option<FileStamp>)>(
        &mut self,
        modified: Option<FileStamp>,
        load: F,
    ) -> (r: Result<T, String>)
        requires
            call_requires(load, ()),
        ensures
            is_fresh(old(self).inner, modified) ==> {
                &&& r is Ok
                &&& cloned((old(self).inner->0).0, r->Ok_0)
                &&& *final(self) == *old(self)
            },
            !is_fresh(old(self).inner, modified) ==> exists|
                out: (Result<T, String>, Option<FileStamp>),
            | #[trigger]
                call_ensures(load, (), out) && r == out.0 && match (out.0, out.1) {
                    (Ok(v), Some(t)) => {
                        &&& final(self).inner is Some
                        &&& cloned(v, (final(self).inner->0).0)
                        &&& (final(self).inner->0).1 == t
                    },
                    _ => *final(self) == *old(self),
                },
    {
        match (&self.inner, modified) {
            (Some(entry), Some(t)) => {
                if entry.1 == t {
                    return Ok(entry.0.clone());
                }
            },
            _ => {},
        }
        let (loaded, stamp) = load();
        match loaded {
            Ok(v) => {
                match stamp {
                    Some(t) => {
                        self.inner = Some((v.clone(), t));
                    },
                    None => {},
                }
                Ok(v)
            },
            Err(e) => Err(e),
        }
    }

    /// Forgets the value.
    pub fn invalidate(&mut self)
        ensures
            final(self).inner is None,
    {
        self.inner = None;
    }
}

/// A forgotten value is loaded anew, whenever the file was changed.
pub proof fn law_invalidated_is_loaded<T>(modified: Option<FileStamp>)
    ensures
        !is_fresh::<T>(None, modified),
{
}

/// What a cache holds is used just where the file was last changed when it was
/// loaded: another time, or none, has it loaded anew.
pub proof fn law_only_the_same_time_is_fresh<T>(value: T, at: FileStamp, modified: FileStamp)
    ensures
        is_fresh(Some((value, at)), Some(at)),
        at != modified ==> !is_fresh(Some((value, at)), Some(modified)),
        !is_fresh(Some((value, at)), None),
{
}

} // verus!
