//! The agent adapter: per-assistant conventions for startup, prompt framing,
//! done-marker detection and reply cleanup. `GenericAgent` is driven entirely
//! by its descriptor templates; the `{id}` and `{message}` placeholders are
//! substituted verbatim at dispatch.

use vstd::prelude::*;

verus! {

use crate::config::AgentConfig;
use crate::rex;
use crate::text;

/// The `{id}` placeholder.
pub open spec fn spec_id_placeholder() -> Seq<char> {
    seq!['{', 'i', 'd', '}']
}

/// The `{message}` placeholder.
pub open spec fn spec_msg_placeholder() -> Seq<char> {
    seq!['{', 'm', 'e', 's', 's', 'a', 'g', 'e', '}']
}

/// The fixed instruction block written after the framed prompt, telling the
/// assistant to end its reply with the substituted done marker.
pub open spec fn spec_trailer() -> Seq<char> {
    "\n\nIMPORTANT:\n- Reply normally, in English.\n- End your reply with this exact final line (verbatim, on its own line):\n"@
}

/// The done-marker pattern for one request: the descriptor's `done_regex`
/// with `{id}` replaced by the regex-escaped request id.
pub open spec fn spec_done_pattern(done_regex: Seq<char>, id: Seq<char>) -> Seq<char> {
    text::spec_replace(done_regex, spec_id_placeholder(), rex::regex_escaped(id))
}

/// A reply is complete when the done pattern compiles and matches the last
/// non-blank line of the text.
pub open spec fn spec_is_reply_complete(done_regex: Seq<char>, text: Seq<char>, id: Seq<char>) -> bool {
    let pat = spec_done_pattern(done_regex, id);
    rex::regex_valid(pat) && match text::spec_last_nonblank(text::spec_lines(text)) {
        Some(l) => rex::regex_matches(pat, l),
        None => false,
    }
}

/// The cleaned reply: trailing blank lines go, then the last line if it
/// matches the done pattern, then blank lines and trailing whitespace again.
/// When the pattern does not compile the text is returned unchanged.
pub open spec fn spec_strip_done_marker(done_regex: Seq<char>, text: Seq<char>, id: Seq<char>) -> Seq<char> {
    let pat = spec_done_pattern(done_regex, id);
    if !rex::regex_valid(pat) {
        text
    } else {
        let ls1 = text::spec_drop_trailing_blanks(text::spec_lines(text));
        let ls2 = if ls1.len() > 0 && rex::regex_matches(pat, ls1.last()) {
            ls1.drop_last()
        } else {
            ls1
        };
        text::spec_trim_end(text::spec_join(text::spec_drop_trailing_blanks(ls2)))
    }
}

/// The bytes injected for one prompt: the sentinel template with both
/// placeholders substituted, then the fixed trailer, then the substituted
/// done marker.
pub open spec fn spec_inject(
    sentinel_template: Seq<char>,
    done_template: Seq<char>,
    message: Seq<char>,
    id: Seq<char>,
) -> Seq<char> {
    let prefix = text::spec_replace(
        text::spec_replace(sentinel_template, spec_id_placeholder(), id),
        spec_msg_placeholder(),
        message,
    );
    let done = text::spec_replace(done_template, spec_id_placeholder(), id);
    prefix + spec_trailer() + done
}

/// The argv to spawn: the command, its arguments, and `--cwd <dir>` when the
/// adapter supports a working directory and the directory exists.
pub open spec fn spec_startup_command(
    command: Seq<char>,
    args: Seq<Seq<char>>,
    supports_cwd: bool,
    working_dir: Seq<char>,
    working_dir_exists: bool,
) -> Seq<Seq<char>> {
    let base = seq![command] + args;
    if supports_cwd && working_dir_exists {
        base + seq!["--cwd"@, working_dir]
    } else {
        base
    }
}

/// The per-assistant adapter contract. Every operation is a function of the
/// descriptor fields exposed by the spec accessors.
pub trait Agent {
    spec fn spec_name(&self) -> Seq<char>;

    spec fn spec_ready_pattern(&self) -> Seq<char>;

    spec fn spec_error_patterns(&self) -> Seq<Seq<char>>;

    spec fn spec_command(&self) -> Seq<char>;

    spec fn spec_args(&self) -> Seq<Seq<char>>;

    spec fn spec_supports_cwd(&self) -> bool;

    spec fn spec_sentinel_regex(&self) -> Seq<char>;

    spec fn spec_done_regex(&self) -> Seq<char>;

    spec fn spec_sentinel_template(&self) -> Seq<char>;

    spec fn spec_done_template(&self) -> Seq<char>;

    fn name(&self) -> (r: &str)
        ensures
            r@ == self.spec_name(),
    ;

    fn get_ready_pattern(&self) -> (r: &str)
        ensures
            r@ == self.spec_ready_pattern(),
    ;

    fn get_error_patterns(&self) -> (r: &Vec<String>)
        ensures
            r.deep_view() == self.spec_error_patterns(),
    ;

    fn get_startup_command(&self, working_dir: &str, working_dir_exists: bool) -> (r: Vec<String>)
        ensures
            r.deep_view() == spec_startup_command(
                self.spec_command(),
                self.spec_args(),
                self.spec_supports_cwd(),
                working_dir@,
                working_dir_exists,
            ),
    ;

    fn inject_message_sentinel(&self, message: &str, message_id: &str) -> (r: String)
        ensures
            r@ == spec_inject(
                self.spec_sentinel_template(),
                self.spec_done_template(),
                message@,
                message_id@,
            ),
    ;

    /// The bytes that cancel in-flight generation.
    fn get_interrupt_sequence(&self) -> (r: Vec<u8>)
        ensures
            r@ == seq![3u8],
    ;

    /// Whether a crash with this exit code calls for an automatic restart.
    fn should_auto_restart(&self, exit_code: i32) -> (r: bool)
        ensures
            r == (exit_code != 0),
    ;

    fn extract_sentinel_id(&self, output: &str) -> (r: Option<String>)
        ensures
            !rex::regex_valid(self.spec_sentinel_regex()) ==> r is None,
            rex::regex_valid(self.spec_sentinel_regex()) ==> match rex::regex_capture1(
                self.spec_sentinel_regex(),
                output@,
            ) {
                Some(c) => r matches Some(s) && s@ == c,
                None => r is None,
            },
    ;

    fn get_done_regex(&self) -> (r: &str)
        ensures
            r@ == self.spec_done_regex(),
    ;

    fn is_reply_complete(&self, text: &str, message_id: &str) -> (r: bool)
        ensures
            r == spec_is_reply_complete(self.spec_done_regex(), text@, message_id@),
    ;

    fn strip_done_marker(&self, text: &str, message_id: &str) -> (r: String)
        ensures
            r@ == spec_strip_done_marker(self.spec_done_regex(), text@, message_id@),
    ;
}

pub struct GenericAgent {
    pub name: String,
    pub ready_pattern: String,
    pub error_patterns: Vec<String>,
    pub command: String,
    pub args: Vec<String>,
    pub supports_cwd: bool,
    pub sentinel_template: String,
    pub sentinel_regex: String,
    pub done_template: String,
    pub done_regex: String,
}

impl GenericAgent {
    pub fn new(name: String, config: &AgentConfig) -> (r: Self)
        ensures
            r.spec_name() == name@,
            r.spec_ready_pattern() == config.ready_pattern@,
            r.spec_error_patterns() == config.error_patterns.deep_view(),
            r.spec_command() == config.command@,
            r.spec_args() == config.args.deep_view(),
            r.spec_supports_cwd() == config.supports_cwd,
            r.spec_sentinel_regex() == config.sentinel_regex@,
            r.spec_done_regex() == config.done_regex@,
            r.spec_sentinel_template() == config.sentinel_template@,
            r.spec_done_template() == config.done_template@,
    {
        broadcast use vstd::std_specs::vec::vec_clone_deep_view_proof;

        GenericAgent {
            name,
            ready_pattern: config.ready_pattern.clone(),
            error_patterns: config.error_patterns.clone(),
            command: config.command.clone(),
            args: config.args.clone(),
            supports_cwd: config.supports_cwd,
            sentinel_template: config.sentinel_template.clone(),
            sentinel_regex: config.sentinel_regex.clone(),
            done_template: config.done_template.clone(),
            done_regex: config.done_regex.clone(),
        }
    }

    /// The done pattern for one request id, ready to compile.
    fn done_pattern(&self, message_id: &str) -> (r: String)
        ensures
            r@ == spec_done_pattern(self.done_regex@, message_id@),
    {
        let escaped = rex::regex_escape(message_id);
        let dv = text::chars_of(self.done_regex.as_str());
        let ev = text::chars_of(escaped.as_str());
        let idph = id_placeholder();
        let out = text::replace_chars(&dv, &idph, &ev);
        text::string_of(&out)
    }
}

/// The `{id}` placeholder as characters.
fn id_placeholder() -> (r: Vec<char>)
    ensures
        r@ == spec_id_placeholder(),
{
    let mut v: Vec<char> = Vec::new();
    v.push('{');
    v.push('i');
    v.push('d');
    v.push('}');
    assert(v@ =~= spec_id_placeholder());
    v
}

/// The `{message}` placeholder as characters.
fn msg_placeholder() -> (r: Vec<char>)
    ensures
        r@ == spec_msg_placeholder(),
{
    let mut v: Vec<char> = Vec::new();
    v.push('{');
    v.push('m');
    v.push('e');
    v.push('s');
    v.push('s');
    v.push('a');
    v.push('g');
    v.push('e');
    v.push('}');
    assert(v@ =~= spec_msg_placeholder());
    v
}

impl Agent for GenericAgent {
    open spec fn spec_name(&self) -> Seq<char> {
        self.name@
    }

    open spec fn spec_ready_pattern(&self) -> Seq<char> {
        self.ready_pattern@
    }

    open spec fn spec_error_patterns(&self) -> Seq<Seq<char>> {
        self.error_patterns.deep_view()
    }

    open spec fn spec_command(&self) -> Seq<char> {
        self.command@
    }

    open spec fn spec_args(&self) -> Seq<Seq<char>> {
        self.args.deep_view()
    }

    open spec fn spec_supports_cwd(&self) -> bool {
        self.supports_cwd
    }

    open spec fn spec_sentinel_regex(&self) -> Seq<char> {
        self.sentinel_regex@
    }

    open spec fn spec_done_regex(&self) -> Seq<char> {
        self.done_regex@
    }

    open spec fn spec_sentinel_template(&self) -> Seq<char> {
        self.sentinel_template@
    }

    open spec fn spec_done_template(&self) -> Seq<char> {
        self.done_template@
    }

    fn name(&self) -> (r: &str) {
        self.name.as_str()
    }

    fn get_ready_pattern(&self) -> (r: &str) {
        self.ready_pattern.as_str()
    }

    fn get_error_patterns(&self) -> (r: &Vec<String>) {
        &self.error_patterns
    }

    fn get_startup_command(&self, working_dir: &str, working_dir_exists: bool) -> (r: Vec<String>) {
        let mut cmd: Vec<String> = Vec::new();
        cmd.push(self.command.clone());
        let ghost base0 = cmd.deep_view();
        assert(base0 =~= seq![self.command@]);
        let mut i: usize = 0;
        while i < self.args.len()
            invariant
                i <= self.args@.len(),
                cmd.deep_view() == seq![self.command@] + self.args.deep_view().take(i as int),
            decreases self.args@.len() - i,
        {
            let ghost pre = cmd.deep_view();
            let ghost pre_v = cmd@;
            cmd.push(self.args[i].clone());
            proof {
                assert forall|k: int| 0 <= k < pre.len() implies cmd.deep_view()[k] == pre[k] by {
                    assert(cmd@[k] == pre_v[k]);
                }
                assert(cmd.deep_view() =~= pre + seq![self.args@[i as int]@]);
                assert(cmd.deep_view() =~= seq![self.command@] + self.args.deep_view().take(i + 1));
            }
            i += 1;
        }
        proof {
            assert(self.args.deep_view().take(self.args@.len() as int) =~= self.args.deep_view());
        }
        if self.supports_cwd && working_dir_exists {
            let ghost pre = cmd.deep_view();
            let ghost pre_v = cmd@;
            cmd.push("--cwd".to_owned());
            proof {
                assert forall|k: int| 0 <= k < pre.len() implies cmd.deep_view()[k] == pre[k] by {
                    assert(cmd@[k] == pre_v[k]);
                }
                assert(cmd.deep_view() =~= pre + seq!["--cwd"@]);
            }
            let ghost pre2 = cmd.deep_view();
            let ghost pre2_v = cmd@;
            cmd.push(working_dir.to_owned());
            proof {
                assert forall|k: int| 0 <= k < pre2.len() implies cmd.deep_view()[k] == pre2[k] by {
                    assert(cmd@[k] == pre2_v[k]);
                }
                assert(cmd.deep_view() =~= pre2 + seq![working_dir@]);
                assert(cmd.deep_view() =~= (seq![self.command@] + self.args.deep_view()) + seq![
                    "--cwd"@,
                    working_dir@,
                ]);
            }
        }
        cmd
    }

    fn inject_message_sentinel(&self, message: &str, message_id: &str) -> (r: String) {
        let idph = id_placeholder();
        let msgph = msg_placeholder();
        let idv = text::chars_of(message_id);
        let msgv = text::chars_of(message);
        let st = text::chars_of(self.sentinel_template.as_str());
        let p1 = text::replace_chars(&st, &idph, &idv);
        let mut out = text::replace_chars(&p1, &msgph, &msgv);
        let trailer =
            "\n\nIMPORTANT:\n- Reply normally, in English.\n- End your reply with this exact final line (verbatim, on its own line):\n";
        let tv = text::chars_of(trailer);
        text::push_all(&mut out, &tv);
        let dt = text::chars_of(self.done_template.as_str());
        let done = text::replace_chars(&dt, &idph, &idv);
        text::push_all(&mut out, &done);
        text::string_of(&out)
    }

    fn get_interrupt_sequence(&self) -> (r: Vec<u8>) {
        let mut v: Vec<u8> = Vec::new();
        v.push(3u8);
        assert(v@ =~= seq![3u8]);
        v
    }

    fn should_auto_restart(&self, exit_code: i32) -> (r: bool) {
        exit_code != 0
    }

    fn extract_sentinel_id(&self, output: &str) -> (r: Option<String>) {
        rex::regex_capture_first(self.sentinel_regex.as_str(), output)
    }

    fn get_done_regex(&self) -> (r: &str) {
        self.done_regex.as_str()
    }

    fn is_reply_complete(&self, text_in: &str, message_id: &str) -> (r: bool) {
        let pat = self.done_pattern(message_id);
        let tv = text::chars_of(text_in);
        let ls = text::split_lines(&tv);
        match text::last_nonblank(&ls) {
            Some(i) => {
                let line = text::string_of(&ls[i]);
                assert(line@ == ls.deep_view()[i as int]);
                match rex::regex_is_match(pat.as_str(), line.as_str()) {
                    Some(b) => b,
                    None => false,
                }
            },
            None => {
                false
            },
        }
    }

    fn strip_done_marker(&self, text_in: &str, message_id: &str) -> (r: String) {
        let pat = self.done_pattern(message_id);
        let tv = text::chars_of(text_in);
        if !rex::regex_check(pat.as_str()) {
            return text::string_of(&tv);
        }
        let mut ls = text::split_lines(&tv);
        text::drop_trailing_blanks(&mut ls);
        proof {
            text::lemma_dtb_idempotent(text::spec_lines(tv@));
        }
        let n = ls.len();
        if n > 0 {
            let line = text::string_of(&ls[n - 1]);
            assert(line@ == ls.deep_view().last());
            let matched = match rex::regex_is_match(pat.as_str(), line.as_str()) {
                Some(b) => b,
                None => false,
            };
            if matched {
                let ghost pre = ls.deep_view();
                let ghost pre_v = ls@;
                ls.pop();
                proof {
                    assert forall|k: int| 0 <= k < ls@.len() implies ls.deep_view()[k]
                        == pre.drop_last()[k] by {
                        assert(ls@[k] == pre_v[k]);
                    }
                    assert(ls.deep_view() =~= pre.drop_last());
                }
                text::drop_trailing_blanks(&mut ls);
            }
        }
        let mut joined = text::join_lines(&ls);
        text::trim_end(&mut joined);
        text::string_of(&joined)
    }
}

/// Builds the adapter for a named agent from its descriptor.
pub fn create_agent(name: &str, config: &AgentConfig) -> (r: GenericAgent)
    ensures
        r.spec_name() == name@,
        r.spec_ready_pattern() == config.ready_pattern@,
        r.spec_error_patterns() == config.error_patterns.deep_view(),
        r.spec_command() == config.command@,
        r.spec_args() == config.args.deep_view(),
        r.spec_supports_cwd() == config.supports_cwd,
        r.spec_sentinel_regex() == config.sentinel_regex@,
        r.spec_done_regex() == config.done_regex@,
        r.spec_sentinel_template() == config.sentinel_template@,
        r.spec_done_template() == config.done_template@,
{
    GenericAgent::new(name.to_owned(), config)
}


/// Law: a harvested reply carries no done marker. Stripping a complete text
/// and appending the matched marker line on a line of its own gives a
/// complete text again; and when no line of the stripped reply matches the
/// done pattern (in particular, when the text held a single marker), the
/// stripped reply itself is not complete.
pub proof fn lemma_reply_stripped(done_regex: Seq<char>, text: Seq<char>, id: Seq<char>)
    requires
        spec_is_reply_complete(done_regex, text, id),
    ensures
        spec_is_reply_complete(
            done_regex,
            spec_strip_done_marker(done_regex, text, id) + seq!['\n'] + text::spec_last_nonblank(
                text::spec_lines(text),
            )->Some_0,
            id,
        ),
        (forall|i: int|
            0 <= i < text::spec_lines(spec_strip_done_marker(done_regex, text, id)).len()
                ==> !rex::regex_matches(
                spec_done_pattern(done_regex, id),
                #[trigger] text::spec_lines(spec_strip_done_marker(done_regex, text, id))[i],
            )) ==> !spec_is_reply_complete(
            done_regex,
            spec_strip_done_marker(done_regex, text, id),
            id,
        ),
{
    let pat = spec_done_pattern(done_regex, id);
    let ls = text::spec_lines(text);
    let marker = text::spec_last_nonblank(ls)->Some_0;
    let reply = spec_strip_done_marker(done_regex, text, id);
    text::lemma_last_nonblank_props(ls);
    text::lemma_lines_no_nl(text);
    let mi = choose|i: int| 0 <= i < ls.len() && ls[i] == marker;
    assert forall|j: int| 0 <= j < marker.len() implies marker[j] != '\n' by {
        assert(ls[mi][j] != '\n');
    }
    assert(marker.len() > 0) by {
        if marker.len() == 0 {
            assert(text::spec_blank(marker));
        }
    }
    let a = reply + seq!['\n'];
    assert(a.last() == '\n');
    text::lemma_lines_concat(a, marker);
    text::lemma_first_nl_at(marker, marker.len() as int);
    assert(text::spec_lines(marker) == seq![marker]);
    let w = reply + seq!['\n'] + marker;
    assert(a + marker =~= w);
    let big = text::spec_lines(a) + seq![marker];
    assert(text::spec_lines(w) == big);
    assert(big.last() == marker);
    assert(!text::spec_blank(marker));
    assert(text::spec_last_nonblank(big) == Some(marker));
    assert(rex::regex_matches(pat, marker));
    if forall|i: int|
        0 <= i < text::spec_lines(reply).len() ==> !rex::regex_matches(
            pat,
            #[trigger] text::spec_lines(reply)[i],
        ) {
        text::lemma_last_nonblank_props(text::spec_lines(reply));
        let lo = text::spec_last_nonblank(text::spec_lines(reply));
        if lo is Some {
            let l = lo->Some_0;
            let i = choose|i: int|
                0 <= i < text::spec_lines(reply).len() && text::spec_lines(reply)[i] == l;
            assert(!rex::regex_matches(pat, l));
        }
        assert(!spec_is_reply_complete(done_regex, reply, id));
    }
}


/// Law (single-marker form): when exactly one line of a complete text
/// matches the done pattern and no line ends in whitespace, the stripped
/// reply is not complete — the marker really is gone. The whitespace proviso
/// is owed to the final end-trim: trimming could alter the reply's last
/// line, and what the done pattern makes of the altered line is not a
/// function this library can see.
pub proof fn lemma_reply_stripped_unique(
    done_regex: Seq<char>,
    text: Seq<char>,
    id: Seq<char>,
    k: int,
)
    requires
        spec_is_reply_complete(done_regex, text, id),
        0 <= k < text::spec_lines(text).len(),
        rex::regex_matches(spec_done_pattern(done_regex, id), text::spec_lines(text)[k]),
        forall|i: int|
            0 <= i < text::spec_lines(text).len() && i != k ==> !rex::regex_matches(
                spec_done_pattern(done_regex, id),
                #[trigger] text::spec_lines(text)[i],
            ),
        forall|i: int|
            0 <= i < text::spec_lines(text).len() ==> ((#[trigger] text::spec_lines(
                text,
            )[i]).len() == 0 || !text::is_space_char(text::spec_lines(text)[i].last())),
    ensures
        !spec_is_reply_complete(done_regex, spec_strip_done_marker(done_regex, text, id), id),
{
    let pat = spec_done_pattern(done_regex, id);
    let ls = text::spec_lines(text);
    let ls1 = text::spec_drop_trailing_blanks(ls);
    text::lemma_dtb_prefix(ls);
    text::lemma_last_nonblank_dtb(ls);
    let n1 = ls1.len() as int;
    assert(n1 > 0);
    assert(ls1.last() == ls.take(n1)[n1 - 1]);
    assert(ls1.last() == ls[n1 - 1]);
    assert(rex::regex_matches(pat, ls1.last()));
    assert(n1 - 1 == k);
    let ls2 = ls1.drop_last();
    assert(ls2 =~= ls.take(k));
    let ls3 = text::spec_drop_trailing_blanks(ls2);
    text::lemma_dtb_prefix(ls2);
    text::lemma_dtb_last(ls2);
    let n3 = ls3.len() as int;
    assert(n3 <= k);
    assert forall|i: int| 0 <= i < n3 implies ls3[i] == ls[i] by {
        assert(ls3[i] == ls2.take(n3)[i]);
        assert(ls2[i] == ls.take(k)[i]);
    }
    let reply = spec_strip_done_marker(done_regex, text, id);
    assert(reply == text::spec_trim_end(text::spec_join(ls3)));
    if n3 == 0 {
        assert(ls3 =~= Seq::<Seq<char>>::empty());
        assert(text::spec_join(ls3) =~= Seq::<char>::empty());
        assert(reply =~= Seq::<char>::empty());
        assert(text::spec_lines(reply) =~= Seq::<Seq<char>>::empty());
        assert(!spec_is_reply_complete(done_regex, reply, id));
    } else {
        assert(!text::spec_blank(ls3.last()));
        assert(ls3.last().len() > 0) by {
            if ls3.last().len() == 0 {
                assert(text::spec_blank(ls3.last()));
            }
        }
        assert(ls3.last() == ls[n3 - 1]);
        assert(!text::is_space_char(ls3.last().last()));
        text::lemma_join_last_char(ls3);
        assert(reply == text::spec_join(ls3));
        text::lemma_lines_no_nl(text);
        assert forall|i: int, j: int|
            0 <= i < ls3.len() && 0 <= j < ls3[i].len() implies #[trigger] ls3[i][j] != '\n' by {
            assert(ls3[i] == ls[i]);
            assert(ls[i][j] != '\n');
        }
        assert forall|i: int|
            0 <= i < ls3.len() implies ((#[trigger] ls3[i]).len() == 0 || ls3[i].last()
            != '\r') by {
            assert(ls3[i] == ls[i]);
            if ls[i].len() > 0 {
                assert(!text::is_space_char(ls[i].last()));
            }
        }
        text::lemma_join_lines_roundtrip(ls3);
        assert(text::spec_lines(reply) == ls3);
        text::lemma_last_nonblank_props(ls3);
        let lo = text::spec_last_nonblank(ls3);
        if lo is Some {
            let l = lo->Some_0;
            let i = choose|i: int| 0 <= i < ls3.len() && ls3[i] == l;
            assert(ls3[i] == ls[i]);
            assert(!rex::regex_matches(pat, l));
        }
        assert(!spec_is_reply_complete(done_regex, reply, id));
    }
}

} // verus!
