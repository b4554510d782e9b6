//! How an LSP server process is launched: directly on this machine, or
//! inside the workspace container through `docker exec -i`.
use vstd::prelude::*;

verus! {

/// How and where to spawn the LSP server process.
#[derive(Debug, Clone)]
pub enum LspSpawner {
    /// Run the server directly on this machine.
    Local,
    /// Run the server inside a Docker container via `docker exec`.
    DockerExec { container_name: String },
}

/// A program and its arguments, in order.
#[derive(Debug, Clone)]
pub struct CommandLine {
    pub program: String,
    pub args: Vec<String>,
}

/// The views of a sequence of strings.
pub open spec fn string_views(v: Seq<String>) -> Seq<Seq<char>> {
    v.map_values(|s: String| s@)
}

/// The views of a sequence of string slices.
pub open spec fn str_views(v: Seq<&str>) -> Seq<Seq<char>> {
    v.map_values(|s: &str| s@)
}

impl LspSpawner {
    /// The program that is run for `bin`.
    pub open spec fn program_spec(&self, bin: Seq<char>) -> Seq<char> {
        match self {
            LspSpawner::Local => bin,
            LspSpawner::DockerExec { .. } => "docker"@,
        }
    }

    /// The arguments it is run with: the server's own for `Local`;
    /// `exec -i <container> <bin>` and then the server's own for
    /// `DockerExec` (no `-t`: a TTY would mangle the byte framing).
    pub open spec fn args_spec(&self, bin: Seq<char>, args: Seq<Seq<char>>) -> Seq<Seq<char>> {
        match self {
            LspSpawner::Local => args,
            LspSpawner::DockerExec { container_name } => seq!["exec"@, "-i"@, container_name@, bin] + args,
        }
    }

    /// The command line that launches the server binary `bin` with
    /// `args`.
    pub fn build_command(&self, bin: &str, args: &[&str]) -> (cmd: CommandLine)
        ensures
            cmd.program@ == self.program_spec(bin@),
            string_views(cmd.args@) == self.args_spec(bin@, str_views(args@)),
    {
        let mut out: Vec<String> = Vec::new();
        let program = match self {
            LspSpawner::Local => bin.to_owned(),
            LspSpawner::DockerExec { container_name } => {
                out.push("exec".to_owned());
                out.push("-i".to_owned());
                out.push(container_name.clone());
                out.push(bin.to_owned());
                "docker".to_owned()
            },
        };
        let ghost base = string_views(out@);
        assert(base == match self {
            LspSpawner::Local => Seq::<Seq<char>>::empty(),
            LspSpawner::DockerExec { container_name } => seq!["exec"@, "-i"@, container_name@, bin@],
        });
        let mut i: usize = 0;
        while i < args.len()
            invariant
                i <= args.len(),
                string_views(out@) == base + str_views(args@).take(i as int),
            decreases args.len() - i,
        {
            let ghost before = out@;
            let a = args[i].to_owned();
            assert(a@ == args@[i as int]@);
            out.push(a);
            assert(out@ == before.push(a));
            assert(str_views(args@).take(i + 1) =~= str_views(args@).take(i as int).push(args@[i as int]@));
            assert(string_views(out@) =~= string_views(before).push(a@));
            i = i + 1;
        }
        assert(str_views(args@).take(args.len() as int) =~= str_views(args@));
        CommandLine { program, args: out }
    }
}

} // verus!
