//! The build script of a package: a shebang line and the phases of the
//! recipe, with what the recipe knows of the package filled in.

use crate::package::package::{phase_views, Package, PackageView, Phase};
use crate::util::bytes::{bytes_equal, first_from, lemma_first_from, lemma_first_from_found};
use crate::util::bytes::text_of_valid;
use crate::util::text::{str_equal, texts};
use vstd::prelude::*;
use vstd::slice::slice_subrange;
use vstd::string::StringSliceAdditionalSpecFns;
use vstd::utf8::{decode_utf8, encode_utf8, valid_utf8};

verus! {

/// Why a fragment could not be filled in.
#[derive(Debug, Clone, Copy, PartialEq, Eq, Structural)]
pub enum TemplateError {
    /// A `{{` is not closed by `}}`.
    Unterminated,
    /// What stands between `{{` and `}}` names nothing of the package.
    UnknownVariable,
}

/// Why no script could be built.
#[derive(Debug)]
pub enum ScriptError {
    /// The package has a phase of this name, which is not one of the
    /// declared phases.
    UnknownPhase(String),
    /// A fragment could not be filled in.
    TemplateError(TemplateError),
}

/// The mathematical value of a `ScriptError`.
pub enum ScriptErrorView {
    UnknownPhase(Seq<char>),
    TemplateError(TemplateError),
}

impl View for ScriptError {
    type V = ScriptErrorView;

    open spec fn view(&self) -> ScriptErrorView {
        match *self {
            ScriptError::UnknownPhase(name) => ScriptErrorView::UnknownPhase(name@),
            ScriptError::TemplateError(e) => ScriptErrorView::TemplateError(e),
        }
    }
}

/// Whether a variable begins at `i`: with `{{`.
pub open spec fn opens_at(s: Seq<u8>, i: int) -> bool {
    0 <= i && i + 1 < s.len() && s[i] == 123 && s[i + 1] == 123
}

/// Whether a variable ends at `i`: with `}}`.
pub open spec fn closes_at(s: Seq<u8>, i: int) -> bool {
    0 <= i && i + 1 < s.len() && s[i] == 125 && s[i + 1] == 125
}

/// What a variable of a fragment stands for: `this.name`, `this.version`,
/// `this.source_url` and `this.source_hash` stand for what the package
/// says; nothing else is a variable.
pub open spec fn variable(key: Seq<u8>, package: PackageView) -> Option<Seq<u8>> {
    if key == "this.name".spec_bytes() {
        Some(encode_utf8(package.name))
    } else if key == "this.version".spec_bytes() {
        Some(encode_utf8(package.version))
    } else if key == "this.source_url".spec_bytes() {
        Some(encode_utf8(package.source_url))
    } else if key == "this.source_hash".spec_bytes() {
        Some(encode_utf8(package.source_hash))
    } else {
        None
    }
}

/// A fragment with its variables filled in: each `{{key}}` gives way to
/// what the key stands for, everything else stays.
pub open spec fn render(template: Seq<u8>, package: PackageView) -> Result<Seq<u8>, TemplateError>
    decreases template.len(),
{
    if template.len() == 0 {
        Ok(Seq::empty())
    } else if opens_at(template, 0) {
        let close = first_from(template, 2, |s: Seq<u8>, i: int| closes_at(s, i));
        if 2 <= close && close + 2 <= template.len() {
            match variable(template.subrange(2, close), package) {
                None => Err(TemplateError::UnknownVariable),
                Some(value) => match render(template.skip(close + 2), package) {
                    Ok(rest) => Ok(value + rest),
                    Err(e) => Err(e),
                },
            }
        } else {
            Err(TemplateError::Unterminated)
        }
    } else {
        match render(template.drop_first(), package) {
            Ok(rest) => Ok(seq![template[0]] + rest),
            Err(e) => Err(e),
        }
    }
}

/// Where no variable begins among the first `k` bytes of a fragment, these
/// stay as they are, before what the rest renders as.
proof fn lemma_render_copy(template: Seq<u8>, package: PackageView, k: int)
    requires
        0 <= k <= template.len(),
        forall|j: int| 0 <= j < k ==> !opens_at(template, j),
    ensures
        render(template, package) == render_after(template.take(k), template.skip(k), package),
    decreases k,
{
    if k == 0 {
        assert(template.skip(0) =~= template);
        if render(template, package) is Ok {
            assert(template.take(0) + render(template, package)->Ok_0 =~= render(
                template,
                package,
            )->Ok_0);
        }
    } else {
        let rest = template.drop_first();
        assert(!opens_at(template, 0));
        assert forall|j: int| 0 <= j < k - 1 implies !opens_at(rest, j) by {
            assert(!opens_at(template, j + 1));
        }
        lemma_render_copy(rest, package, k - 1);
        assert(rest.skip(k - 1) =~= template.skip(k));
        if render(rest.skip(k - 1), package) is Ok {
            let more = render(rest.skip(k - 1), package)->Ok_0;
            assert(seq![template[0]] + (rest.take(k - 1) + more) =~= template.take(k) + more);
        }
    }
}

/// One line feed is valid UTF-8.
proof fn lemma_line_feed_valid()
    ensures
        valid_utf8(seq![10u8]),
{
    let line = seq![10u8];
    assert(line[0] == 10u8);
    assert(vstd::utf8::pop_first_scalar(line).len() == 0);
    reveal_with_fuel(vstd::utf8::valid_utf8, 2);
}

/// What a fragment of text renders as is text.
pub proof fn lemma_render_valid(template: Seq<u8>, package: PackageView)
    requires
        valid_utf8(template),
        render(template, package) is Ok,
    ensures
        valid_utf8(render(template, package)->Ok_0),
    decreases template.len(),
{
    if template.len() == 0 {
    } else if opens_at(template, 0) {
        let closes = |s: Seq<u8>, i: int| closes_at(s, i);
        let close = first_from(template, 2, closes);
        lemma_first_from_found(template, 2, closes);
        let value = variable(template.subrange(2, close), package)->Some_0;
        vstd::utf8::encode_utf8_valid_utf8(package.name);
        vstd::utf8::encode_utf8_valid_utf8(package.version);
        vstd::utf8::encode_utf8_valid_utf8(package.source_url);
        vstd::utf8::encode_utf8_valid_utf8(package.source_hash);
        crate::util::utf8::lemma_ascii_boundaries(template, close + 1);
        vstd::utf8::is_char_boundary_start_end_of_seq(template);
        crate::util::utf8::lemma_valid_between(template, close + 2, template.len() as int);
        assert(template.skip(close + 2) =~= template.subrange(close + 2, template.len() as int));
        lemma_render_valid(template.skip(close + 2), package);
        vstd::utf8::valid_utf8_concat(value, render(template.skip(close + 2), package)->Ok_0);
    } else {
        let width = vstd::utf8::length_of_first_scalar(template);
        assert(1 <= width <= template.len());
        assert forall|j: int| 0 <= j < width implies !opens_at(template, j) by {
            if j > 0 {
                assert(vstd::utf8::is_continuation_byte(template[j]));
            }
        }
        lemma_render_copy(template, package, width);
        assert(vstd::utf8::is_char_boundary(template, width)) by {
            reveal_with_fuel(vstd::utf8::is_char_boundary, 2);
        }
        vstd::utf8::valid_utf8_split(template, width);
        assert(template.skip(width) =~= template.subrange(width, template.len() as int));
        assert(template.take(width) =~= template.subrange(0, width));
        lemma_render_valid(template.skip(width), package);
        vstd::utf8::valid_utf8_concat(
            template.take(width),
            render(template.skip(width), package)->Ok_0,
        );
    }
}

/// What is rendered so far together with what the rest renders as.
pub open spec fn render_after(done: Seq<u8>, rest: Seq<u8>, package: PackageView) -> Result<
    Seq<u8>,
    TemplateError,
> {
    match render(rest, package) {
        Ok(more) => Ok(done + more),
        Err(e) => Err(e),
    }
}

fn push_all(out: &mut Vec<u8>, bytes: &[u8])
    ensures
        final(out)@ == old(out)@ + bytes@,
{
    let mut i: usize = 0;
    proof {
        assert(out@ =~= old(out)@ + bytes@.take(0));
    }
    while i < bytes.len()
        invariant
            i <= bytes.len(),
            out@ == old(out)@ + bytes@.take(i as int),
        decreases bytes.len() - i,
    {
        out.push(bytes[i]);
        proof {
            assert(out@ =~= old(out)@ + bytes@.take(i as int + 1));
        }
        i = i + 1;
    }
    proof {
        assert(bytes@.take(i as int) =~= bytes@);
    }
}

fn lookup<'a>(key: &[u8], package: &'a Package) -> (r: Option<&'a str>)
    ensures
        match r {
            Some(value) => variable(key@, package@) == Some(encode_utf8(value@)),
            None => variable(key@, package@).is_none(),
        },
{
    if bytes_equal(key, "this.name".as_bytes()) {
        Some(package.name().as_str())
    } else if bytes_equal(key, "this.version".as_bytes()) {
        Some(package.version().as_str())
    } else if bytes_equal(key, "this.source_url".as_bytes()) {
        Some(package.source_url().as_str())
    } else if bytes_equal(key, "this.source_hash".as_bytes()) {
        Some(package.source_hash().as_str())
    } else {
        None
    }
}

/// Fills the variables of a fragment in and appends it to `out`.
fn render_into(out: &mut Vec<u8>, template: &[u8], package: &Package) -> (r: Result<(), TemplateError>)
    ensures
        match r {
            Ok(()) => render(template@, package@) is Ok && final(out)@ == old(out)@ + render(
                template@,
                package@,
            )->Ok_0,
            Err(e) => render(template@, package@) == Err::<Seq<u8>, TemplateError>(e),
        },
{
    let ghost closes = |s: Seq<u8>, i: int| closes_at(s, i);
    let ghost mut done: Seq<u8> = Seq::empty();
    let mut pos: usize = 0;
    proof {
        assert(template@.skip(0) =~= template@);
        assert(render_after(done, template@, package@) == render(template@, package@)) by {
            if render(template@, package@) is Ok {
                assert(done + render(template@, package@)->Ok_0 =~= render(
                    template@,
                    package@,
                )->Ok_0);
            }
        }
        assert(out@ =~= old(out)@ + done);
    }
    while pos < template.len()
        invariant
            pos <= template.len(),
            closes == |s: Seq<u8>, i: int| closes_at(s, i),
            out@ == old(out)@ + done,
            render(template@, package@) == render_after(done, template@.skip(pos as int), package@),
        decreases template.len() - pos,
    {
        let ghost rest = template@.skip(pos as int);
        if template[pos] == 123 && pos + 1 < template.len() && template[pos + 1] == 123 {
            let mut close: usize = pos + 2;
            while close < template.len() && !(template[close] == 125 && close + 1 < template.len()
                && template[close + 1] == 125)
                invariant
                    pos + 2 <= close <= template.len(),
                    rest == template@.skip(pos as int),
                    closes == |s: Seq<u8>, i: int| closes_at(s, i),
                    forall|j: int| 2 <= j < close - pos ==> !#[trigger] closes(rest, j),
                decreases template.len() - close,
            {
                close = close + 1;
            }
            proof {
                lemma_first_from(rest, 2, closes, close - pos);
                assert(opens_at(rest, 0));
            }
            if close >= template.len() {
                return Err(TemplateError::Unterminated);
            }
            let key = slice_subrange(template, pos + 2, close);
            proof {
                assert(rest.subrange(2, close - pos) =~= template@.subrange(
                    pos as int + 2,
                    close as int,
                ));
                assert(rest.skip(close - pos + 2) =~= template@.skip(close as int + 2));
            }
            match lookup(key, package) {
                Some(value) => {
                    push_all(out, value.as_bytes());
                    proof {
                        let filled = encode_utf8(value@);
                        if render(template@.skip(close as int + 2), package@) is Ok {
                            let more = render(template@.skip(close as int + 2), package@)->Ok_0;
                            assert(done + (filled + more) =~= (done + filled) + more);
                        }
                        done = done + filled;
                        assert(out@ =~= old(out)@ + done);
                    }
                },
                None => {
                    return Err(TemplateError::UnknownVariable);
                },
            }
            pos = close + 2;
        } else {
            out.push(template[pos]);
            proof {
                assert(!opens_at(rest, 0));
                assert(rest.drop_first() =~= template@.skip(pos as int + 1));
                let byte = seq![template@[pos as int]];
                if render(template@.skip(pos as int + 1), package@) is Ok {
                    let more = render(template@.skip(pos as int + 1), package@)->Ok_0;
                    assert(done + (byte + more) =~= (done + byte) + more);
                }
                done = done + byte;
                assert(out@ =~= old(out)@ + done);
            }
            pos = pos + 1;
        }
    }
    proof {
        assert(template@.skip(pos as int).len() == 0);
        assert(done + Seq::<u8>::empty() =~= done);
    }
    Ok(())
}

/// The place of the first phase of the package that is not declared, or
/// the number of its phases where all are.
pub open spec fn first_unknown(phases: Seq<(Seq<char>, Seq<char>)>, declared: Seq<Seq<char>>) -> int
    decreases phases.len(),
{
    if phases.len() == 0 || !declared.contains(phases[0].0) {
        0
    } else {
        1 + first_unknown(phases.drop_first(), declared)
    }
}

/// The script of the first phase of the name, if there is one.
pub open spec fn phase_script(phases: Seq<(Seq<char>, Seq<char>)>, name: Seq<char>) -> Option<Seq<char>>
    decreases phases.len(),
{
    if phases.len() == 0 {
        None
    } else if phases[0].0 == name {
        Some(phases[0].1)
    } else {
        phase_script(phases.drop_first(), name)
    }
}

/// The body of the script: for each declared phase that the package has,
/// in the declared order, its fragment filled in and a line feed.
pub open spec fn render_phases(declared: Seq<Seq<char>>, package: PackageView) -> Result<
    Seq<u8>,
    TemplateError,
>
    decreases declared.len(),
{
    if declared.len() == 0 {
        Ok(Seq::empty())
    } else {
        match render_phases(declared.drop_last(), package) {
            Err(e) => Err(e),
            Ok(body) => match phase_script(package.phases, declared.last()) {
                None => Ok(body),
                Some(fragment) => match render(encode_utf8(fragment), package) {
                    Err(e) => Err(e),
                    Ok(filled) => Ok(body + filled + seq![10u8]),
                },
            },
        }
    }
}

/// An error among the first phases is the error of them all.
pub proof fn lemma_render_phases_error(declared: Seq<Seq<char>>, package: PackageView, n: int)
    requires
        0 <= n <= declared.len(),
        render_phases(declared.take(n), package) is Err,
    ensures
        render_phases(declared, package) == render_phases(declared.take(n), package),
    decreases declared.len(),
{
    if n == declared.len() {
        assert(declared.take(n) =~= declared);
    } else {
        assert(declared.drop_last().take(n) =~= declared.take(n));
        lemma_render_phases_error(declared.drop_last(), package, n);
    }
}

/// The body of a script is text.
pub proof fn lemma_render_phases_valid(declared: Seq<Seq<char>>, package: PackageView)
    requires
        render_phases(declared, package) is Ok,
    ensures
        valid_utf8(render_phases(declared, package)->Ok_0),
    decreases declared.len(),
{
    if declared.len() > 0 {
        lemma_render_phases_valid(declared.drop_last(), package);
        let body = render_phases(declared.drop_last(), package)->Ok_0;
        match phase_script(package.phases, declared.last()) {
            None => {},
            Some(fragment) => {
                vstd::utf8::encode_utf8_valid_utf8(fragment);
                lemma_render_valid(encode_utf8(fragment), package);
                let filled = render(encode_utf8(fragment), package)->Ok_0;
                lemma_line_feed_valid();
                vstd::utf8::valid_utf8_concat(body, filled);
                vstd::utf8::valid_utf8_concat(body + filled, seq![10u8]);
            },
        }
    }
}

/// The script of a package: the shebang line, then the body. A package
/// with a phase that is not declared has no script, nor has one with a
/// fragment that cannot be filled in.
pub open spec fn spec_script(shebang: Seq<char>, package: PackageView, declared: Seq<Seq<char>>) -> Result<
    Seq<char>,
    ScriptErrorView,
> {
    let unknown = first_unknown(package.phases, declared);
    if 0 <= unknown < package.phases.len() {
        Err(ScriptErrorView::UnknownPhase(package.phases[unknown].0))
    } else {
        match render_phases(declared, package) {
            Err(e) => Err(ScriptErrorView::TemplateError(e)),
            Ok(body) => Ok(decode_utf8(encode_utf8(shebang) + seq![10u8] + body)),
        }
    }
}

/// The build script of a package.
#[derive(Debug)]
pub struct Script(pub String);

impl View for Script {
    type V = Seq<char>;

    open spec fn view(&self) -> Seq<char> {
        self.0@
    }
}

impl Clone for Script {
    fn clone(&self) -> (r: Self)
        ensures
            r@ == self@,
    {
        Script(self.0.clone())
    }
}

impl From<String> for Script {
    fn from(text: String) -> (r: Script) {
        Script(text)
    }
}

impl vstd::std_specs::convert::FromSpecImpl<String> for Script {
    open spec fn obeys_from_spec() -> bool {
        true
    }

    open spec fn from_spec(text: String) -> Script {
        Script(text)
    }
}

/// Builds scripts that begin with a given shebang.
#[derive(Debug)]
pub struct ScriptBuilder<'a> {
    shebang: &'a str,
}

fn is_declared(declared: &Vec<String>, name: &str) -> (r: bool)
    ensures
        r == texts(declared@).contains(name@),
{
    let mut i: usize = 0;
    while i < declared.len()
        invariant
            i <= declared.len(),
            forall|j: int| 0 <= j < i ==> texts(declared@)[j] != name@,
        decreases declared.len() - i,
    {
        if str_equal(declared[i].as_str(), name) {
            assert(texts(declared@)[i as int] == name@);
            return true;
        }
        i = i + 1;
    }
    false
}

fn find_phase<'a>(phases: &'a Vec<Phase>, name: &str) -> (r: Option<&'a Phase>)
    ensures
        match r {
            Some(phase) => phase_script(phase_views(phases@), name@) == Some(phase.script@),
            None => phase_script(phase_views(phases@), name@).is_none(),
        },
{
    let mut i: usize = 0;
    proof {
        assert(phase_views(phases@).skip(0) =~= phase_views(phases@));
    }
    while i < phases.len()
        invariant
            i <= phases.len(),
            phase_script(phase_views(phases@), name@) == phase_script(
                phase_views(phases@).skip(i as int),
                name@,
            ),
        decreases phases.len() - i,
    {
        proof {
            assert(phase_views(phases@).skip(i as int).drop_first() =~= phase_views(phases@).skip(
                i as int + 1,
            ));
        }
        if str_equal(phases[i].name.as_str(), name) {
            return Some(&phases[i]);
        }
        i = i + 1;
    }
    None
}

impl<'a> ScriptBuilder<'a> {
    /// The shebang of the scripts.
    pub closed spec fn shebang(&self) -> Seq<char> {
        self.shebang@
    }

    /// A builder of scripts that begin with `shebang`.
    pub fn new(shebang: &'a str) -> (r: ScriptBuilder<'a>)
        ensures
            r.shebang() == shebang@,
    {
        ScriptBuilder { shebang }
    }

    /// Builds the script of a package from its phases, in the order in
    /// which `phaseorder` declares them.
    pub fn build(&self, package: &Package, phaseorder: &Vec<String>) -> (r: Result<Script, ScriptError>)
        ensures
            match r {
                Ok(script) => spec_script(self.shebang(), package@, texts(phaseorder@)) == Ok::<
                    Seq<char>,
                    ScriptErrorView,
                >(script@),
                Err(e) => spec_script(self.shebang(), package@, texts(phaseorder@)) == Err::<
                    Seq<char>,
                    ScriptErrorView,
                >(e@),
            },
    {
        let phases = package.phases();
        let ghost declared = texts(phaseorder@);
        let mut k: usize = 0;
        proof {
            assert(package@.phases.skip(0) =~= package@.phases);
        }
        while k < phases.len()
            invariant
                k <= phases.len(),
                declared == texts(phaseorder@),
                phase_views(phases@) == package@.phases,
                first_unknown(package@.phases, declared) == k + first_unknown(
                    package@.phases.skip(k as int),
                    declared,
                ),
            decreases phases.len() - k,
        {
            proof {
                assert(package@.phases.skip(k as int).drop_first() =~= package@.phases.skip(
                    k as int + 1,
                ));
            }
            if !is_declared(phaseorder, phases[k].name.as_str()) {
                return Err(ScriptError::UnknownPhase(phases[k].name.clone()));
            }
            k = k + 1;
        }
        let mut out: Vec<u8> = Vec::new();
        push_all(&mut out, self.shebang.as_bytes());
        out.push(10);
        let ghost head = encode_utf8(self.shebang@) + seq![10u8];
        let ghost mut body: Seq<u8> = Seq::empty();
        let mut i: usize = 0;
        proof {
            assert(out@ =~= head + body);
            assert(declared.take(0) =~= Seq::<Seq<char>>::empty());
        }
        while i < phaseorder.len()
            invariant
                i <= phaseorder.len(),
                declared == texts(phaseorder@),
                phase_views(phases@) == package@.phases,
                first_unknown(package@.phases, declared) >= package@.phases.len(),
                head == encode_utf8(self.shebang()) + seq![10u8],
                out@ == head + body,
                render_phases(declared.take(i as int), package@) == Ok::<Seq<u8>, TemplateError>(
                    body,
                ),
            decreases phaseorder.len() - i,
        {
            proof {
                assert(declared.take(i as int + 1).drop_last() =~= declared.take(i as int));
                assert(declared.take(i as int + 1).last() == phaseorder@[i as int]@);
            }
            match find_phase(phases, phaseorder[i].as_str()) {
                None => {},
                Some(phase) => {
                    let ghost before = out@;
                    match render_into(&mut out, phase.script.as_str().as_bytes(), package) {
                        Ok(()) => {
                            out.push(10);
                            proof {
                                let filled = render(encode_utf8(phase.script@), package@)->Ok_0;
                                assert(out@ =~= head + (body + filled + seq![10u8]));
                                body = body + filled + seq![10u8];
                            }
                        },
                        Err(e) => {
                            proof {
                                lemma_render_phases_error(declared, package@, i as int + 1);
                            }
                            return Err(ScriptError::TemplateError(e));
                        },
                    }
                },
            }
            i = i + 1;
        }
        proof {
            assert(declared.take(i as int) =~= declared);
        }
        proof {
            lemma_render_phases_valid(declared, package@);
            vstd::utf8::encode_utf8_valid_utf8(self.shebang());
            lemma_line_feed_valid();
            vstd::utf8::valid_utf8_concat(encode_utf8(self.shebang()), seq![10u8]);
            vstd::utf8::valid_utf8_concat(head, body);
        }
        Ok(Script(text_of_valid(out)))
    }
}

/// The script of a package depends on what the recipe says and on nothing
/// else: two recipes that say the same give the same script.
pub proof fn lemma_script_deterministic(
    shebang: Seq<char>,
    first: Package,
    second: Package,
    declared: Seq<Seq<char>>,
)
    requires
        first@ == second@,
    ensures
        spec_script(shebang, first@, declared) == spec_script(shebang, second@, declared),
{
}

} // verus!
