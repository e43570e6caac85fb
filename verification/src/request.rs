//! What an update run is asked to do.

use crate::mirror::{ignore_prefixes, parse_ignore_list};
use crate::reaper::parse_names;
use crate::text::list_items;
use vstd::prelude::*;

verus! {

/// What a request says, as plain values.
pub struct RequestView {
    /// The names of the processes to terminate.
    pub process_names: Seq<Seq<char>>,
    /// The directory that holds the new files.
    pub input_dir: Seq<char>,
    /// The live resource directory.
    pub output_dir: Seq<char>,
    /// The executable to start once the update is applied.
    pub app_path: Seq<char>,
    /// The prefixes of the relative paths that are not copied from the
    /// input directory.
    pub ignores: Seq<Seq<char>>,
}

/// The request of one update run. It is made once and not changed.
pub struct UpdateRequest {
    process_names: Vec<String>,
    input_dir: String,
    output_dir: String,
    app_path: String,
    ignores: Vec<String>,
}

impl View for UpdateRequest {
    type V = RequestView;

    closed spec fn view(&self) -> RequestView {
        RequestView {
            process_names: self.process_names.deep_view(),
            input_dir: self.input_dir@,
            output_dir: self.output_dir@,
            app_path: self.app_path@,
            ignores: self.ignores.deep_view(),
        }
    }
}

impl UpdateRequest {
    /// Makes a request from the values of the command line: `ps` is the
    /// comma-separated list of process names, `ignore` the
    /// comma-separated list of ignore prefixes, if one was given.
    pub fn new(ps: &str, input: &str, output: &str, app: &str, ignore: Option<&str>) -> (request:
        UpdateRequest)
        ensures
            request@.process_names == list_items(ps@),
            request@.input_dir == input@,
            request@.output_dir == output@,
            request@.app_path == app@,
            request@.ignores == (match ignore {
                Some(list) => ignore_prefixes(list@),
                None => Seq::empty(),
            }),
    {
        let ignores = match ignore {
            Some(list) => parse_ignore_list(list),
            None => {
                let none: Vec<String> = Vec::new();
                assert(none.deep_view() =~= Seq::<Seq<char>>::empty());
                none
            },
        };
        UpdateRequest {
            process_names: parse_names(ps),
            input_dir: input.to_owned(),
            output_dir: output.to_owned(),
            app_path: app.to_owned(),
            ignores,
        }
    }

    /// The names of the processes to terminate.
    pub fn process_names(&self) -> (names: &Vec<String>)
        ensures
            names.deep_view() == self@.process_names,
    {
        &self.process_names
    }

    /// The directory that holds the new files.
    pub fn input_dir(&self) -> (dir: &str)
        ensures
            dir@ == self@.input_dir,
    {
        self.input_dir.as_str()
    }

    /// The live resource directory.
    pub fn output_dir(&self) -> (dir: &str)
        ensures
            dir@ == self@.output_dir,
    {
        self.output_dir.as_str()
    }

    /// The executable to start once the update is applied.
    pub fn app_path(&self) -> (path: &str)
        ensures
            path@ == self@.app_path,
    {
        self.app_path.as_str()
    }

    /// The prefixes of the relative paths that are not copied from the
    /// input directory.
    pub fn ignores(&self) -> (prefixes: &Vec<String>)
        ensures
            prefixes.deep_view() == self@.ignores,
    {
        &self.ignores
    }
}

} // verus!
