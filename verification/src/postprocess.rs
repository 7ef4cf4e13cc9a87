//! Post-download hook settings and the decisions behind the hook: which
//! steps a finished file goes through. The file moves and the script run
//! themselves happen with the caller.

use vstd::prelude::*;

verus! {

/// What to do with a finished download.
pub struct PostprocessConfig {
    pub move_completed_dir: Option<String>,
    pub script_path: Option<String>,
    pub script_timeout_secs: u64,
}

impl Default for PostprocessConfig {
    /// No move, no script, a five-minute script budget.
    fn default() -> (r: Self)
        ensures
            r.move_completed_dir is None,
            r.script_path is None,
            r.script_timeout_secs == 300,
    {
        PostprocessConfig {
            move_completed_dir: None,
            script_path: None,
            script_timeout_secs: 300,
        }
    }
}

/// What the hook did: where the file went, how the script ended, and any
/// errors along the way.
pub struct PostprocessResult {
    pub moved_to: Option<String>,
    pub script_exit_code: Option<i32>,
    pub script_output: Option<String>,
    pub errors: Vec<String>,
}

/// The plan for one finished file: the target directory of a move and
/// the script to run, each only when configured non-empty.
pub struct PostprocessPlan {
    pub move_to_dir: Option<String>,
    pub run_script: Option<String>,
}

impl PostprocessConfig {
    /// Decide the steps: a configured, non-empty directory means a move;
    /// a configured, non-empty script path means a script run.
    pub fn plan(&self) -> (r: PostprocessPlan)
        ensures
            r.move_to_dir == (match self.move_completed_dir {
                Some(d) => if d@.len() > 0 {
                    Some(d)
                } else {
                    None::<String>
                },
                None => None::<String>,
            }),
            r.run_script == (match self.script_path {
                Some(p) => if p@.len() > 0 {
                    Some(p)
                } else {
                    None::<String>
                },
                None => None::<String>,
            }),
    {
        let move_to_dir = match &self.move_completed_dir {
            Some(d) => if !d.as_str().is_empty() {
                Some(d.clone())
            } else {
                None
            },
            None => None,
        };
        let run_script = match &self.script_path {
            Some(p) => if !p.as_str().is_empty() {
                Some(p.clone())
            } else {
                None
            },
            None => None,
        };
        PostprocessPlan { move_to_dir, run_script }
    }
}

} // verus!
