//! Long-term storage of finished files: one directory per job below the
//! storage path.

use vstd::prelude::*;
use crate::config::StorageConfig;
use crate::error::{AppError, AppResult, ErrorKind};
use crate::security::joined_path;
use crate::text::{chars_of, contains, has_substring, push_chars, push_str, string_of, texts};

verus! {

/// The storage rules for one configuration.
pub struct StorageService {
    config: StorageConfig,
}

/// The first of `names` that holds `_processed`, if any.
pub open spec fn first_processed(names: Seq<Seq<char>>) -> Option<Seq<char>>
    decreases names.len(),
{
    if names.len() == 0 {
        None
    } else if has_substring(names[0], "_processed"@) {
        Some(names[0])
    } else {
        first_processed(names.drop_first())
    }
}

fn join(base: &str, name: &str) -> (path: String)
    ensures
        path@ == joined_path(base@, name@),
{
    let b = chars_of(base);
    let mut path: Vec<char> = Vec::new();
    push_chars(&mut path, &b);
    if b.len() > 0 && b[b.len() - 1] != '/' {
        push_str(&mut path, "/");
    }
    push_str(&mut path, name);
    assert(path@ =~= joined_path(base@, name@));
    string_of(&path)
}

impl StorageService {
    /// The storage path.
    pub closed spec fn root(&self) -> Seq<char> {
        match self.config.local_path {
            Some(p) => p@,
            None => Seq::empty(),
        }
    }

    /// The rules for `config`. Fails if no storage path is configured.
    /// The caller creates the directory.
    pub fn new(config: StorageConfig) -> (r: AppResult<StorageService>)
        ensures
            match r {
                Ok(s) => config.local_path matches Some(p) && s.root() == p@,
                Err(e) => config.local_path is None && e@ == (
                    ErrorKind::Storage,
                    "Local storage path not configured"@,
                ),
            },
    {
        if config.local_path.is_none() {
            return Err(AppError::Storage("Local storage path not configured".to_owned()));
        }
        Ok(StorageService { config })
    }

    /// The storage path.
    pub fn local_path(&self) -> (p: &str)
        ensures
            p@ == self.root(),
    {
        proof {
            reveal_strlit("");
            assert(""@ =~= Seq::<char>::empty());
        }
        match &self.config.local_path {
            Some(p) => p.as_str(),
            None => "",
        }
    }

    /// The directory of a job: its identifier below the storage path.
    pub fn job_dir(&self, job_id: &str) -> (dir: String)
        ensures
            dir@ == joined_path(self.root(), job_id@),
    {
        join(self.local_path(), job_id)
    }

    /// Where a file named `file_name` of a job is stored.
    pub fn destination(&self, job_id: &str, file_name: &str) -> (path: String)
        ensures
            path@ == joined_path(joined_path(self.root(), job_id@), file_name@),
    {
        let dir = self.job_dir(job_id);
        join(dir.as_str(), file_name)
    }

    /// The stored output of a job among the names of the files in its
    /// directory: the first whose name holds `_processed`.
    pub fn pick_processed(names: &Vec<String>) -> (r: Option<String>)
        ensures
            match r {
                Some(name) => first_processed(texts(names@)) == Some(name@),
                None => first_processed(texts(names@)) is None,
            },
    {
        let mark = chars_of("_processed");
        let ghost all = texts(names@);
        let mut i: usize = 0;
        assert(all.skip(0) =~= all);
        while i < names.len()
            invariant
                i <= names@.len(),
                all == texts(names@),
                mark@ == "_processed"@,
                first_processed(all) == first_processed(all.skip(i as int)),
            decreases names@.len() - i,
        {
            proof {
                assert(all.skip(i as int)[0] == names@[i as int]@);
                assert(all.skip(i as int).drop_first() =~= all.skip(i + 1));
            }
            let name = chars_of(names[i].as_str());
            if contains(&name, &mark) {
                return Some(names[i].clone());
            }
            i += 1;
        }
        None
    }
}

} // verus!
