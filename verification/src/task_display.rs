use crate::color::{display_form, ComparableColor};
use crate::task_spec::{
    frames_view, output_path, AlphaTask, FileOutputTaskSpec, OutputTask, PixmapTask, TaskSpec, TileSized,
    ToAlphaChannelTaskSpec, ToPixmapTaskSpec,
};
use vstd::prelude::*;

verus! {

// ---------------------------------------------------------------------------------------------
// Text forms
// ---------------------------------------------------------------------------------------------

/// The character of a decimal digit.
pub open spec fn digit_char(d: nat) -> char {
    (48 + d) as char
}

/// A number in decimal, without leading zeros.
pub open spec fn decimal_text(n: nat) -> Seq<char>
    decreases n,
{
    if n < 10 {
        seq![digit_char(n)]
    } else {
        decimal_text(n / 10).push(digit_char(n % 10))
    }
}

/// The text form of an image task: SVG images by name, `@` before the color an alpha channel
/// is painted (an image's alpha channel shown as the image), `+` between stacked layers (in
/// brackets for two images), `upscale(..)`, `animate(..)` with the frames after the background,
/// separated by `;`, and `None` for the empty placeholder.
pub open spec fn pixmap_text(p: PixmapTask) -> Seq<char>
    decreases p,
{
    match p {
        PixmapTask::Animate(background, frames) => seq!['a', 'n', 'i', 'm', 'a', 't', 'e', '('] + pixmap_text(*background)
            + seq![';'] + frames_text(frames) + seq![')'],
        PixmapTask::FromSvg(source) => source,
        PixmapTask::PaintAlphaChannel(base, color) => match *base {
            AlphaTask::FromPixmap(base_of_base) => pixmap_text(base_of_base) + seq!['@'] + display_form(color),
            _ => alpha_text(*base) + seq!['@'] + display_form(color),
        },
        PixmapTask::StackLayerOnColor(background, foreground) => display_form(background) + seq!['+']
            + pixmap_text(*foreground),
        PixmapTask::StackLayerOnLayer(background, foreground) => seq!['('] + pixmap_text(*background) + seq!['+']
            + pixmap_text(*foreground) + seq![')'],
        PixmapTask::UpscaleFromGridSize(base) => seq!['u', 'p', 's', 'c', 'a', 'l', 'e', '('] + pixmap_text(*base)
            + seq![')'],
        PixmapTask::Empty => seq!['N', 'o', 'n', 'e'],
    }
}

/// The text forms of a list of image tasks, separated by `;`.
pub open spec fn frames_text(frames: Seq<PixmapTask>) -> Seq<char>
    decreases frames,
{
    if frames.len() == 0 {
        seq![]
    } else if frames.len() == 1 {
        pixmap_text(frames[0])
    } else {
        frames_text(frames.drop_last()) + seq![';'] + pixmap_text(frames.last())
    }
}

/// The text form of an alpha-channel task: `@` before the factor of a semitransparent
/// channel, `alpha(..)` around an image, `+` between stacked layers in brackets, and
/// `upscale(..)`.
pub open spec fn alpha_text(a: AlphaTask) -> Seq<char>
    decreases a,
{
    match a {
        AlphaTask::MakeSemitransparent(base, alpha) => alpha_text(*base) + seq!['@'] + decimal_text(alpha as nat),
        AlphaTask::FromPixmap(base) => seq!['a', 'l', 'p', 'h', 'a', '('] + pixmap_text(base) + seq![')'],
        AlphaTask::StackAlphaOnAlpha(background, foreground) => seq!['('] + alpha_text(*background) + seq!['+']
            + alpha_text(*foreground) + seq![')'],
        AlphaTask::StackAlphaOnBackground(background, foreground) => seq!['('] + decimal_text(background as nat)
            + seq!['+'] + alpha_text(*foreground) + seq![')'],
        AlphaTask::UpscaleFromGridSize(base) => seq!['u', 'p', 's', 'c', 'a', 'l', 'e', '('] + alpha_text(*base) + seq![
            ')',
        ],
    }
}

/// The text form of a file-output task: the path it writes, and for a copy also the path of
/// the original.
pub open spec fn output_text(o: OutputTask) -> Seq<char> {
    match o {
        OutputTask::PngOutput(_, _) => output_path(o),
        OutputTask::Copy(original, _) => seq!['s', 'y', 'm', 'l', 'i', 'n', 'k', '('] + output_path(o) + seq![
            ' ',
            '-',
            '>',
            ' ',
        ] + output_path(*original) + seq![')'],
    }
}

// ---------------------------------------------------------------------------------------------
// Writing the text forms
// ---------------------------------------------------------------------------------------------

fn digit_str(d: u8) -> (s: &'static str)
    requires
        d < 10,
    ensures
        s@ == seq![digit_char(d as nat)],
{
    proof {
        reveal_strlit("0");
        reveal_strlit("1");
        reveal_strlit("2");
        reveal_strlit("3");
        reveal_strlit("4");
        reveal_strlit("5");
        reveal_strlit("6");
        reveal_strlit("7");
        reveal_strlit("8");
        reveal_strlit("9");
    }
    match d {
        0 => "0",
        1 => "1",
        2 => "2",
        3 => "3",
        4 => "4",
        5 => "5",
        6 => "6",
        7 => "7",
        8 => "8",
        _ => "9",
    }
}

fn push_decimal(out: &mut String, n: u8)
    ensures
        final(out)@ == old(out)@ + decimal_text(n as nat),
{
    if n >= 100 {
        out.append(digit_str(n / 100));
        out.append(digit_str((n / 10) % 10));
        out.append(digit_str(n % 10));
        assert(decimal_text(n as nat) =~= seq![digit_char((n / 100) as nat), digit_char(((n / 10) % 10) as nat), digit_char((n % 10) as nat)]) by {
            assert(decimal_text((n / 10) as nat) == decimal_text((n / 100) as nat).push(digit_char(((n / 10) % 10) as nat)));
        }
    } else if n >= 10 {
        out.append(digit_str(n / 10));
        out.append(digit_str(n % 10));
        assert(decimal_text((n / 10) as nat) == seq![digit_char((n / 10) as nat)]);
        assert(decimal_text(n as nat) =~= seq![digit_char((n / 10) as nat), digit_char((n % 10) as nat)]);
    } else {
        out.append(digit_str(n));
        assert(decimal_text(n as nat) =~= seq![digit_char(n as nat)]);
    }
}

pub fn push_literal(out: &mut String, text: &str)
    ensures
        final(out)@ == old(out)@ + text@,
{
    out.append(text);
}

fn push_color(out: &mut String, color: &ComparableColor)
    ensures
        final(out)@ == old(out)@ + display_form(*color),
{
    let text = color.to_display_string();
    out.append(text.as_str());
}

fn write_pixmap_text(t: &ToPixmapTaskSpec, out: &mut String)
    ensures
        final(out)@ == old(out)@ + pixmap_text(t@),
    decreases t,
{
    let ghost start = out@;
    match t {
        ToPixmapTaskSpec::Animate { background, frames } => {
            proof {
                reveal_strlit("animate(");
                reveal_strlit(";");
                reveal_strlit(")");
            }
            push_literal(out, "animate(");
            write_pixmap_text(background, out);
            push_literal(out, ";");
            let ghost before_frames = out@;
            let mut i: usize = 0;
            while i < frames.len()
                invariant
                    i <= frames@.len(),
                    *t is Animate,
                    (*t)->Animate_frames == *frames,
                    out@ == before_frames + frames_text(frames_view(frames@.take(i as int))),
                decreases frames@.len() - i,
            {
                proof {
                    lemma_frames_view_take(frames@, i as int);
                    broadcast use vstd::std_specs::vec::axiom_vec_decreases_to_view;
                    broadcast use vstd::std_specs::vec::axiom_vec_index_decreases;
                    assert(decreases_to!(*t => (*t)->Animate_frames));
                    assert(decreases_to!(frames => frames@[i as int]));
                }
                proof {
                    reveal_strlit(";");
                }
                let ghost mid = out@;
                if i > 0 {
                    push_literal(out, ";");
                }
                let ghost sep = out@;
                write_pixmap_text(&frames[i], out);
                proof {
                    let v = frames_view(frames@.take(i + 1));
                    let u = frames_view(frames@.take(i as int));
                    assert(v.drop_last() == u);
                    assert(v.last() == frames@[i as int]@);
                    if i == 0 {
                        assert(v.len() == 1);
                        assert(v[0] == v.last());
                        assert(u.len() == 0);
                        assert(frames_text(u) == Seq::<char>::empty());
                        assert(frames_text(v) == pixmap_text(v[0]));
                        assert(out@ =~= before_frames + frames_text(v));
                    } else {
                        assert(frames_text(v) == frames_text(u) + seq![';'] + pixmap_text(v.last()));
                        assert(sep == mid + seq![';']);
                        assert(out@ =~= before_frames + frames_text(v));
                    }
                }
                i = i + 1;
            }
            proof {
                assert(frames@.take(frames@.len() as int) =~= frames@);
            }
            push_literal(out, ")");
            proof {
                let fv = frames_view(frames@);
                assert(t@ == PixmapTask::Animate(Box::new(background@), fv));
                assert(out@ =~= start + pixmap_text(t@));
            }
        },
        ToPixmapTaskSpec::FromSvg { source } => {
            out.append(source.as_str());
        },
        ToPixmapTaskSpec::PaintAlphaChannel { base, color } => {
            proof {
                reveal_strlit("@");
            }
            match &**base {
                ToAlphaChannelTaskSpec::FromPixmap { base: base_of_base } => {
                    write_pixmap_text(base_of_base, out);
                    assert(base@ == AlphaTask::FromPixmap(base_of_base@));
                },
                other => {
                    write_alpha_text(other, out);
                    assert(!(base@ is FromPixmap));
                },
            }
            let ghost shown = match base@ {
                AlphaTask::FromPixmap(base_of_base) => pixmap_text(base_of_base),
                _ => alpha_text(base@),
            };
            assert(out@ == start + shown);
            push_literal(out, "@");
            push_color(out, color);
            assert(out@ =~= start + pixmap_text(t@));
        },
        ToPixmapTaskSpec::StackLayerOnColor { background, foreground } => {
            proof {
                reveal_strlit("+");
            }
            push_color(out, background);
            push_literal(out, "+");
            write_pixmap_text(foreground, out);
        },
        ToPixmapTaskSpec::StackLayerOnLayer { background, foreground } => {
            proof {
                reveal_strlit("(");
                reveal_strlit("+");
                reveal_strlit(")");
            }
            push_literal(out, "(");
            write_pixmap_text(background, out);
            push_literal(out, "+");
            write_pixmap_text(foreground, out);
            push_literal(out, ")");
        },
        ToPixmapTaskSpec::UpscaleFromGridSize { base } => {
            proof {
                reveal_strlit("upscale(");
                reveal_strlit(")");
            }
            push_literal(out, "upscale(");
            write_pixmap_text(base, out);
            push_literal(out, ")");
        },
        ToPixmapTaskSpec::Empty => {
            proof {
                reveal_strlit("None");
            }
            push_literal(out, "None");
        },
    }
    assert(out@ =~= start + pixmap_text(t@));
}

proof fn lemma_frames_view_take(frames: Seq<ToPixmapTaskSpec>, i: int)
    requires
        0 <= i < frames.len(),
    ensures
        frames_view(frames.take(i + 1)).drop_last() == frames_view(frames.take(i)),
        frames_view(frames.take(i + 1)).last() == frames[i]@,
        frames_view(frames.take(i + 1)).len() == i + 1,
        frames_view(frames.take(i)).len() == i,
{
    let t = frames.take(i + 1);
    assert(t.drop_last() =~= frames.take(i));
    assert(t.last() == frames[i]);
    crate::task_spec::lemma_frames_view_drop_last(t);
    crate::task_spec::lemma_frames_view_facts(frames.take(i));
}

fn write_alpha_text(t: &ToAlphaChannelTaskSpec, out: &mut String)
    ensures
        final(out)@ == old(out)@ + alpha_text(t@),
    decreases t,
{
    let ghost start = out@;
    match t {
        ToAlphaChannelTaskSpec::MakeSemitransparent { base, alpha } => {
            proof {
                reveal_strlit("@");
            }
            write_alpha_text(base, out);
            push_literal(out, "@");
            push_decimal(out, *alpha);
        },
        ToAlphaChannelTaskSpec::FromPixmap { base } => {
            proof {
                reveal_strlit("alpha(");
                reveal_strlit(")");
            }
            push_literal(out, "alpha(");
            write_pixmap_text(base, out);
            push_literal(out, ")");
        },
        ToAlphaChannelTaskSpec::StackAlphaOnAlpha { background, foreground } => {
            proof {
                reveal_strlit("(");
                reveal_strlit("+");
                reveal_strlit(")");
            }
            push_literal(out, "(");
            write_alpha_text(background, out);
            push_literal(out, "+");
            write_alpha_text(foreground, out);
            push_literal(out, ")");
        },
        ToAlphaChannelTaskSpec::StackAlphaOnBackground { background, foreground } => {
            proof {
                reveal_strlit("(");
                reveal_strlit("+");
                reveal_strlit(")");
            }
            push_literal(out, "(");
            push_decimal(out, *background);
            push_literal(out, "+");
            write_alpha_text(foreground, out);
            push_literal(out, ")");
        },
        ToAlphaChannelTaskSpec::UpscaleFromGridSize { base } => {
            proof {
                reveal_strlit("upscale(");
                reveal_strlit(")");
            }
            push_literal(out, "upscale(");
            write_alpha_text(base, out);
            push_literal(out, ")");
        },
    }
    assert(out@ =~= start + alpha_text(t@));
}

impl ToPixmapTaskSpec {
    /// The text form of the task (see [`pixmap_text`]).
    pub fn to_display_string(&self) -> (r: String)
        ensures
            r@ == pixmap_text(self@),
    {
        let mut out = String::new();
        write_pixmap_text(self, &mut out);
        assert(out@ =~= pixmap_text(self@));
        out
    }
}

impl ToAlphaChannelTaskSpec {
    /// The text form of the task (see [`alpha_text`]).
    pub fn to_display_string(&self) -> (r: String)
        ensures
            r@ == alpha_text(self@),
    {
        let mut out = String::new();
        write_alpha_text(self, &mut out);
        assert(out@ =~= alpha_text(self@));
        out
    }
}

impl FileOutputTaskSpec {
    /// The text form of the task (see [`output_text`]).
    pub fn to_display_string(&self) -> (r: String)
        ensures
            r@ == output_text(self@),
    {
        match self {
            FileOutputTaskSpec::PngOutput { .. } => self.get_path(),
            FileOutputTaskSpec::Copy { original, .. } => {
                proof {
                    reveal_strlit("symlink(");
                    reveal_strlit(" -> ");
                    reveal_strlit(")");
                }
                let mut out = String::new();
                push_literal(&mut out, "symlink(");
                let own = self.get_path();
                out.append(own.as_str());
                push_literal(&mut out, " -> ");
                let theirs = original.get_path();
                out.append(theirs.as_str());
                push_literal(&mut out, ")");
                assert(out@ =~= output_text(self@));
                out
            },
        }
    }
}

/// The text form of a task of any kind.
pub open spec fn task_text(t: TaskSpec) -> Seq<char> {
    match t {
        TaskSpec::ToPixmap(inner) => pixmap_text(inner@),
        TaskSpec::ToAlphaChannel(inner) => alpha_text(inner@),
        TaskSpec::FileOutput(inner) => output_text(inner@),
    }
}

impl TaskSpec {
    /// The text form of the task it holds.
    pub fn to_display_string(&self) -> (r: String)
        ensures
            r@ == task_text(*self),
    {
        match self {
            TaskSpec::ToPixmap(inner) => inner.to_display_string(),
            TaskSpec::ToAlphaChannel(inner) => inner.to_display_string(),
            TaskSpec::FileOutput(inner) => inner.to_display_string(),
        }
    }
}

impl TileSized<ToPixmapTaskSpec> {
    /// The text form of the task followed by ` (size N)`.
    pub fn to_display_string(&self) -> (r: String)
        ensures
            r@ == pixmap_text(self.inner@) + seq![' ', '(', 's', 'i', 'z', 'e', ' '] + decimal_text(
                self.tile_size as nat,
            ) + seq![')'],
    {
        let mut out = self.inner.to_display_string();
        proof {
            reveal_strlit(" (size ");
            reveal_strlit(")");
        }
        push_literal(&mut out, " (size ");
        push_decimal_u32(&mut out, self.tile_size);
        push_literal(&mut out, ")");
        out
    }
}

pub fn push_decimal_u32(out: &mut String, n: u32)
    ensures
        final(out)@ == old(out)@ + decimal_text(n as nat),
    decreases n,
{
    if n >= 10 {
        push_decimal_u32(out, n / 10);
        out.append(digit_str((n % 10) as u8));
    } else {
        out.append(digit_str(n as u8));
    }
}

} // verus!
