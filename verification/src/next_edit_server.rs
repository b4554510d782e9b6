//! Supervision of a local `llama-server` for next-edit suggestions:
//! how it is launched, and the bounded log of what it printed.
//! Spawning, polling and reading its output are the caller's.
use vstd::prelude::*;
use crate::error::MoonError;
use crate::num::decimal;
use crate::summary::fits_prefix;
use crate::text::{char_utf8_width, chars_of, push_chars, push_str_chars, string_from_chars, trim, trim_bounds, utf8_len};

verus! {

/// Most log lines kept.
pub const LOG_CAP: usize = 500;

/// Longest log line kept, in UTF-8 bytes, before it is cut.
pub const LINE_MAX: usize = 8000;

/// The program run for the configured binary: the trimmed setting, or
/// `llama-server` when it is blank.
pub open spec fn program_spec(binary: Seq<char>) -> Seq<char> {
    if trim(binary).len() == 0 {
        "llama-server"@
    } else {
        trim(binary)
    }
}

/// The program to run for the configured binary.
pub fn resolve_program(binary: &str) -> (r: String)
    ensures
        r@ == program_spec(binary@),
{
    let cs = chars_of(binary);
    let (a, b) = trim_bounds(cs.as_slice());
    if a == b {
        return "llama-server".to_owned();
    }
    crate::text::string_from_range(cs.as_slice(), a, b)
}

/// How `llama-server` is launched: program, arguments, and the banner
/// the log starts with.
#[derive(Debug)]
pub struct ServerLaunch {
    pub program: String,
    pub args: Vec<String>,
    pub banner: String,
}

/// Plan the launch of `llama-server` for the Hugging Face repo
/// `hf_repo`, listening on `host:port`; both texts are trimmed and must
/// not be blank.
pub fn start_plan(llama_binary: &str, hf_repo: &str, server_host: &str, server_port: u16) -> (r: Result<ServerLaunch, MoonError>)
    ensures
        trim(hf_repo@).len() == 0 ==> (r matches Err(MoonError::InvalidArgument(m)) && m@
            == "HF repo is empty — set a Hugging Face repo id (e.g. sweepai/sweep-next-edit-1.5B)"@),
        trim(hf_repo@).len() > 0 && trim(server_host@).len() == 0 ==> (r matches Err(MoonError::InvalidArgument(m)) && m@
            == "listen host is empty"@),
        trim(hf_repo@).len() > 0 && trim(server_host@).len() > 0 ==> (r matches Ok(l) && {
            let program = program_spec(llama_binary@);
            let host = trim(server_host@);
            let hf = trim(hf_repo@);
            let port = decimal(server_port as nat);
            &&& l.program@ == program
            &&& l.args.deep_view() == seq!["--host"@, host, "--port"@, port, "--hf-repo"@, hf]
            &&& l.banner@ == "[moon-ide] spawning `"@ + program + "` --host "@ + host + " --port "@ + port
                + " --hf-repo "@ + hf
        }),
{
    let program = resolve_program(llama_binary);
    let hc = chars_of(hf_repo);
    let (ha, hb) = trim_bounds(hc.as_slice());
    if ha == hb {
        return Err(
            MoonError::InvalidArgument("HF repo is empty — set a Hugging Face repo id (e.g. sweepai/sweep-next-edit-1.5B)".to_owned()),
        );
    }
    let sc = chars_of(server_host);
    let (sa, sb) = trim_bounds(sc.as_slice());
    if sa == sb {
        return Err(MoonError::InvalidArgument("listen host is empty".to_owned()));
    }
    let hf = crate::text::string_from_range(hc.as_slice(), ha, hb);
    let host = crate::text::string_from_range(sc.as_slice(), sa, sb);
    let port_chars = crate::num::decimal_chars(server_port as u64);
    let port = string_from_chars(port_chars.as_slice());
    let mut banner = chars_of("[moon-ide] spawning `");
    push_str_chars(&mut banner, program.as_str());
    push_str_chars(&mut banner, "` --host ");
    push_str_chars(&mut banner, host.as_str());
    push_str_chars(&mut banner, " --port ");
    push_chars(&mut banner, port_chars.as_slice());
    push_str_chars(&mut banner, " --hf-repo ");
    push_str_chars(&mut banner, hf.as_str());
    let mut args: Vec<String> = Vec::new();
    args.push("--host".to_owned());
    args.push(host);
    args.push("--port".to_owned());
    args.push(port);
    args.push("--hf-repo".to_owned());
    args.push(hf);
    assert(args.deep_view() =~= seq!["--host"@, trim(server_host@), "--port"@, decimal(server_port as nat), "--hf-repo"@, trim(hf_repo@)]);
    Ok(ServerLaunch { program, args, banner: string_from_chars(banner.as_slice()) })
}

/// The text of a log line: `text` cut to `LINE_MAX` bytes with `…`
/// appended when longer, behind `prefix`.
pub open spec fn log_line_spec(prefix: Seq<char>, text: Seq<char>, k: int) -> Seq<char> {
    let t = if utf8_len(text) > LINE_MAX {
        text.take(k) + seq!['…']
    } else {
        text
    };
    prefix + t
}

/// The recent log lines of the server, oldest first.
pub struct ServerLog {
    lines: Vec<String>,
}

impl ServerLog {
    /// The lines held.
    pub closed spec fn held(&self) -> Seq<Seq<char>> {
        self.lines.deep_view()
    }

    /// An empty log.
    pub fn new() -> (l: ServerLog)
        ensures
            l.held() == Seq::<Seq<char>>::empty(),
    {
        let l = ServerLog { lines: Vec::new() };
        assert(l.held() =~= Seq::<Seq<char>>::empty());
        l
    }

    /// Append a line, dropping the oldest ones first so that at most
    /// `LOG_CAP` are held.
    pub fn push_line(&mut self, line: String)
        requires
            old(self).held().len() <= LOG_CAP,
        ensures
            final(self).held() == {
                let s = old(self).held().push(line@);
                if s.len() > LOG_CAP {
                    s.skip(s.len() - LOG_CAP)
                } else {
                    s
                }
            },
            final(self).held().len() <= LOG_CAP,
    {
        let ghost h0 = self.held();
        if self.lines.len() >= LOG_CAP {
            self.lines.remove(0);
            assert(self.held() =~= h0.skip(1));
        }
        let ghost h1 = self.held();
        self.lines.push(line);
        assert(self.held() =~= h1.push(line@));
        assert(self.held() =~= {
            let s = h0.push(line@);
            if s.len() > LOG_CAP {
                s.skip(s.len() - LOG_CAP)
            } else {
                s
            }
        });
    }

    /// Log `text` from the stream labelled `prefix`: cut to `LINE_MAX`
    /// bytes (marked with `…`) when longer; the cut must fall on a
    /// character boundary.
    pub fn push_log(&mut self, prefix: &str, text: &str)
        requires
            old(self).held().len() <= LOG_CAP,
            utf8_len(text@) > LINE_MAX ==> exists|k: int| 0 <= k <= text@.len() && utf8_len(#[trigger] text@.take(k)) == LINE_MAX,
        ensures
            exists|k: int| {
                &&& (utf8_len(text@) > LINE_MAX ==> #[trigger] fits_prefix(text@, LINE_MAX as nat, k))
                &&& final(self).held() == {
                    let s = old(self).held().push(log_line_spec(prefix@, text@, k));
                    if s.len() > LOG_CAP {
                        s.skip(s.len() - LOG_CAP)
                    } else {
                        s
                    }
                }
            },
            final(self).held().len() <= LOG_CAP,
    {
        let cs = chars_of(text);
        let mut k: usize = 0;
        let mut bytes: usize = 0;
        assert(cs@.take(0) =~= Seq::<char>::empty());
        while k < cs.len() && LINE_MAX - bytes >= char_utf8_width(cs[k])
            invariant
                k <= cs.len(),
                bytes as nat == utf8_len(cs@.take(k as int)),
                bytes <= LINE_MAX,
            decreases cs.len() - k,
        {
            assert(cs@.take(k + 1).drop_last() =~= cs@.take(k as int));
            bytes = bytes + char_utf8_width(cs[k]);
            k = k + 1;
        }
        let mut v = chars_of(prefix);
        if k < cs.len() {
            assert(cs@.take(k + 1).drop_last() =~= cs@.take(k as int));
            assert(utf8_len(cs@.take(k + 1)) > LINE_MAX);
            proof {
                crate::text::lemma_utf8_len_mono(cs@, k + 1);
            }
            assert(fits_prefix(text@, LINE_MAX as nat, k as int));
            push_chars(&mut v, &cs.as_slice()[0..k]);
            assert(cs@.subrange(0, k as int) =~= cs@.take(k as int));
            v.push('…');
        } else {
            assert(cs@.take(k as int) =~= cs@);
            assert(fits_prefix(text@, LINE_MAX as nat, k as int));
            push_chars(&mut v, cs.as_slice());
        }
        let line = string_from_chars(v.as_slice());
        assert(line@ == log_line_spec(prefix@, text@, k as int));
        let ghost h0 = self.held();
        self.push_line(line);
        assert(fits_prefix(text@, LINE_MAX as nat, k as int));
        assert(self.held() == {
            let s = h0.push(log_line_spec(prefix@, text@, k as int));
            if s.len() > LOG_CAP {
                s.skip(s.len() - LOG_CAP)
            } else {
                s
            }
        });
    }

    /// The last `n` lines held, oldest first.
    pub fn tail(&self, n: usize) -> (r: Vec<String>)
        ensures
            r.deep_view() == self.held().skip(if self.held().len() > n { self.held().len() - n } else { 0 }),
    {
        let from: usize = if self.lines.len() > n { self.lines.len() - n } else { 0 };
        let mut out: Vec<String> = Vec::new();
        let mut i = from;
        assert(self.held().subrange(from as int, from as int) =~= Seq::<Seq<char>>::empty());
        while i < self.lines.len()
            invariant
                from <= i <= self.lines.len(),
                out.deep_view() == self.held().subrange(from as int, i as int),
            decreases self.lines.len() - i,
        {
            out.push(self.lines[i].clone());
            assert(self.held().subrange(from as int, i + 1) =~= self.held().subrange(from as int, i as int).push(self.lines@[i as int]@));
            i = i + 1;
        }
        assert(self.held().subrange(from as int, self.lines.len() as int) =~= self.held().skip(from as int));
        out
    }
}

} // verus!
