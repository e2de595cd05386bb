//! Commands: the sandboxed command line of a submission, and plain program
//! invocations.

use vstd::prelude::*;
use crate::text::{concat3, decimal, join, join_strings, owned, u128_to_string, views};

verus! {

/// A program to start: its path, its arguments and the directory to start it in.
pub struct ProgramCommand {
    pub program: String,
    pub args: Vec<String>,
    pub current_dir: Option<String>,
}

/// A command to run inside the sandbox: the command line of the program and
/// the settings of the sandbox around it.
pub struct JailedCommand {
    mounted_directories: Vec<(String, String)>,
    time_limit: Option<usize>,
    input_file: String,
    args: Vec<String>,
    user: String,
    group: String,
    current_dir: String,
    config_file: Option<String>,
}

/// What a sandboxed command holds.
pub struct JailedCommandView {
    pub mounts: Seq<(Seq<char>, Seq<char>)>,
    pub time_limit: Option<usize>,
    pub input_file: Seq<char>,
    pub args: Seq<Seq<char>>,
    pub user: Seq<char>,
    pub group: Seq<char>,
    pub current_dir: Seq<char>,
    pub config_file: Option<Seq<char>>,
}

/// The character sequences of a list of mount pairs.
pub open spec fn mount_views(m: Seq<(String, String)>) -> Seq<(Seq<char>, Seq<char>)> {
    m.map_values(|p: (String, String)| (p.0@, p.1@))
}

impl View for JailedCommand {
    type V = JailedCommandView;

    closed spec fn view(&self) -> JailedCommandView {
        JailedCommandView {
            mounts: mount_views(self.mounted_directories@),
            time_limit: self.time_limit,
            input_file: self.input_file@,
            args: views(self.args@),
            user: self.user@,
            group: self.group@,
            current_dir: self.current_dir@,
            config_file: match self.config_file {
                Some(c) => Some(c@),
                None => None,
            },
        }
    }
}

/// `-R src:dst` for each mount, in order.
pub open spec fn mount_args(mounts: Seq<(Seq<char>, Seq<char>)>) -> Seq<Seq<char>>
    decreases mounts.len(),
{
    if mounts.len() == 0 {
        seq![]
    } else {
        mount_args(mounts.drop_last()) + seq!["-R"@, mounts.last().0 + ":"@ + mounts.last().1]
    }
}

/// `--time_limit {seconds}` when a time limit was set, nothing otherwise.
pub open spec fn time_limit_args(time_limit: Option<usize>) -> Seq<Seq<char>> {
    match time_limit {
        Some(t) => seq!["--time_limit"@, decimal(t as nat)],
        None => seq![],
    }
}

/// The arguments of the sandbox: the time limit when one was set, the
/// configuration file, the mounts, then the command line run by
/// `/bin/sh -c`.
pub open spec fn nsjail_args(v: JailedCommandView) -> Seq<Seq<char>> {
    let config = match v.config_file {
        Some(c) => seq!["--config"@, c],
        None => seq![],
    };
    time_limit_args(v.time_limit) + config + mount_args(v.mounts) + seq!["--"@, "/bin/sh"@, "-c"@, join(v.args, " "@)]
}

/// A fresh sandboxed command running `inner_command`, as user and group 2000,
/// with no time limit of its own (the sandbox's configuration file bounds
/// it).
pub open spec fn fresh_command(inner_command: Seq<char>) -> JailedCommandView {
    JailedCommandView {
        mounts: seq![],
        time_limit: None,
        input_file: seq![],
        args: seq![inner_command],
        user: "2000"@,
        group: "2000"@,
        current_dir: seq![],
        config_file: None,
    }
}

impl JailedCommand {
    /// A sandboxed command starting with `inner_command`, run as user and
    /// group 2000, with no time limit of its own.
    pub fn new(inner_command: String) -> (r: JailedCommand)
        ensures
            r@ == fresh_command(inner_command@),
    {
        let mut args = Vec::new();
        args.push(inner_command);
        let r = JailedCommand {
            mounted_directories: Vec::new(),
            time_limit: None,
            input_file: String::new(),
            args,
            user: owned("2000"),
            group: owned("2000"),
            current_dir: String::new(),
            config_file: None,
        };
        assert(r@.mounts =~= seq![]);
        assert(r@.args =~= seq![inner_command@]);
        r
    }

    /// The command with one more argument.
    pub fn arg(self, arg: &str) -> (r: JailedCommand)
        ensures
            r@ == (JailedCommandView { args: self@.args.push(arg@), ..self@ }),
    {
        let mut s = self;
        s.args.push(owned(arg));
        assert(views(s.args@) =~= views(self.args@).push(arg@));
        s
    }

    /// The command with further arguments, in order.
    pub fn args(self, more: &Vec<String>) -> (r: JailedCommand)
        ensures
            r@ == (JailedCommandView { args: self@.args + views(more@), ..self@ }),
    {
        let mut s = self;
        let mut i: usize = 0;
        while i < more.len()
            invariant
                i <= more@.len(),
                s@ == (JailedCommandView { args: self@.args + views(more@).take(i as int), ..self@ }),
            decreases more.len() - i,
        {
            let ghost before = s@;
            s = s.arg(more[i].as_str());
            assert(self@.args + views(more@).take(i + 1) =~= (self@.args + views(more@).take(i as int)).push(more@[i as int]@));
            i = i + 1;
        }
        assert(views(more@).take(more@.len() as int) =~= views(more@));
        s
    }

    /// The command with a directory mounted into the sandbox at `dst`.
    pub fn mount(self, src: &str, dst: &str) -> (r: JailedCommand)
        ensures
            r@ == (JailedCommandView { mounts: self@.mounts.push((src@, dst@)), ..self@ }),
    {
        let mut s = self;
        s.mounted_directories.push((owned(src), owned(dst)));
        assert(mount_views(s.mounted_directories@) =~= mount_views(self.mounted_directories@).push((src@, dst@)));
        s
    }

    /// The command with a time limit in seconds for its execution, passed to
    /// the sandbox as `--time_limit`.
    pub fn time_limit(self, time_limit: usize) -> (r: JailedCommand)
        ensures
            r@ == (JailedCommandView { time_limit: Some(time_limit), ..self@ }),
    {
        let mut s = self;
        s.time_limit = Some(time_limit);
        s
    }

    /// The command with the name of its input file.
    pub fn input_file(self, input_file: &str) -> (r: JailedCommand)
        ensures
            r@ == (JailedCommandView { input_file: input_file@, ..self@ }),
    {
        let mut s = self;
        s.input_file = owned(input_file);
        s
    }

    /// The command with the directory the sandbox is started in.
    pub fn current_dir(self, cur_dir: &str) -> (r: JailedCommand)
        ensures
            r@ == (JailedCommandView { current_dir: cur_dir@, ..self@ }),
    {
        let mut s = self;
        s.current_dir = owned(cur_dir);
        s
    }

    /// The command with the sandbox's configuration file.
    pub fn config_file(self, dir: &str) -> (r: JailedCommand)
        ensures
            r@ == (JailedCommandView { config_file: Some(dir@), ..self@ }),
    {
        let mut s = self;
        s.config_file = Some(owned(dir));
        s
    }

    /// The directory the sandbox is started in.
    pub fn get_current_dir(&self) -> (r: &String)
        ensures
            r@ == self@.current_dir,
    {
        &self.current_dir
    }

    /// The arguments to give the sandbox program.
    pub fn generate_nsjail_args(&self) -> (r: Vec<String>)
        ensures
            views(r@) == nsjail_args(self@),
    {
        let mut out: Vec<String> = Vec::new();
        match self.time_limit {
            Some(t) => {
                out.push(owned("--time_limit"));
                out.push(u128_to_string(t as u128));
            },
            None => {},
        }
        let ghost limit = views(out@);
        assert(limit =~= time_limit_args(self@.time_limit));
        match &self.config_file {
            Some(dir) => {
                out.push(owned("--config"));
                out.push(dir.clone());
            },
            None => {},
        }
        let ghost config = views(out@);
        let mut i: usize = 0;
        while i < self.mounted_directories.len()
            invariant
                i <= self.mounted_directories@.len(),
                views(out@) == config + mount_args(mount_views(self.mounted_directories@).take(i as int)),
            decreases self.mounted_directories.len() - i,
        {
            let pair = &self.mounted_directories[i];
            let ghost before = views(out@);
            out.push(owned("-R"));
            out.push(concat3(pair.0.as_str(), ":", pair.1.as_str()));
            proof {
                let m = mount_views(self.mounted_directories@);
                assert(m.take(i + 1).drop_last() =~= m.take(i as int));
                assert(views(out@) =~= before + seq!["-R"@, pair.0@ + ":"@ + pair.1@]);
            }
            i = i + 1;
        }
        assert(mount_views(self.mounted_directories@).take(self.mounted_directories@.len() as int)
            =~= mount_views(self.mounted_directories@));
        let ghost before = views(out@);
        out.push(owned("--"));
        out.push(owned("/bin/sh"));
        out.push(owned("-c"));
        out.push(join_strings(&self.args, " "));
        assert(views(out@) =~= before + seq!["--"@, "/bin/sh"@, "-c"@, join(views(self.args@), " "@)]);
        proof {
            let cfg = match self@.config_file {
                Some(c) => seq!["--config"@, c],
                None => seq![],
            };
            assert(config =~= limit + cfg);
        }
        out
    }
}

} // verus!
