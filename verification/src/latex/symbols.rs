//! The symbols of math, as LaTeX commands and as characters.

use vstd::prelude::*;

use crate::text::{replace, replace_of};

verus! {

/// How many commands are known.
pub const SYMBOL_COUNT: usize = 107;

/// The command with number `i` and the character that stands for it, long
/// commands before short ones.
#[verifier::opaque]
pub open spec fn symbol(i: int) -> (Seq<char>, Seq<char>) {
    if i == 0 {
        (r"\leftrightarrow"@, "↔"@)
    } else if i == 1 {
        (r"\varepsilon"@, "ε"@)
    } else if i == 2 {
        (r"\rightarrow"@, "→"@)
    } else if i == 3 {
        (r"\Rightarrow"@, "⇒"@)
    } else if i == 4 {
        (r"\leftarrow"@, "←"@)
    } else if i == 5 {
        (r"\Leftarrow"@, "⇐"@)
    } else if i == 6 {
        (r"\downarrow"@, "↓"@)
    } else if i == 7 {
        (r"\vartheta"@, "ϑ"@)
    } else if i == 8 {
        (r"\varsigma"@, "ς"@)
    } else if i == 9 {
        (r"\subseteq"@, "⊆"@)
    } else if i == 10 {
        (r"\supseteq"@, "⊇"@)
    } else if i == 11 {
        (r"\emptyset"@, "∅"@)
    } else if i == 12 {
        (r"\triangle"@, "△"@)
    } else if i == 13 {
        (r"\epsilon"@, "ε"@)
    } else if i == 14 {
        (r"\upsilon"@, "υ"@)
    } else if i == 15 {
        (r"\Upsilon"@, "Υ"@)
    } else if i == 16 {
        (r"\uparrow"@, "↑"@)
    } else if i == 17 {
        (r"\partial"@, "∂"@)
    } else if i == 18 {
        (r"\lambda"@, "λ"@)
    } else if i == 19 {
        (r"\varrho"@, "ϱ"@)
    } else if i == 20 {
        (r"\varphi"@, "ϕ"@)
    } else if i == 21 {
        (r"\Lambda"@, "Λ"@)
    } else if i == 22 {
        (r"\propto"@, "∝"@)
    } else if i == 23 {
        (r"\approx"@, "≈"@)
    } else if i == 24 {
        (r"\subset"@, "⊂"@)
    } else if i == 25 {
        (r"\supset"@, "⊃"@)
    } else if i == 26 {
        (r"\forall"@, "∀"@)
    } else if i == 27 {
        (r"\exists"@, "∃"@)
    } else if i == 28 {
        (r"\mapsto"@, "↦"@)
    } else if i == 29 {
        (r"\otimes"@, "⊗"@)
    } else if i == 30 {
        (r"\square"@, "□"@)
    } else if i == 31 {
        (r"\langle"@, "⟨"@)
    } else if i == 32 {
        (r"\rangle"@, "⟩"@)
    } else if i == 33 {
        (r"\lfloor"@, "⌊"@)
    } else if i == 34 {
        (r"\rfloor"@, "⌋"@)
    } else if i == 35 {
        (r"\alpha"@, "α"@)
    } else if i == 36 {
        (r"\gamma"@, "γ"@)
    } else if i == 37 {
        (r"\delta"@, "δ"@)
    } else if i == 38 {
        (r"\theta"@, "θ"@)
    } else if i == 39 {
        (r"\kappa"@, "κ"@)
    } else if i == 40 {
        (r"\varpi"@, "ϖ"@)
    } else if i == 41 {
        (r"\sigma"@, "σ"@)
    } else if i == 42 {
        (r"\omega"@, "ω"@)
    } else if i == 43 {
        (r"\Gamma"@, "Γ"@)
    } else if i == 44 {
        (r"\Delta"@, "Δ"@)
    } else if i == 45 {
        (r"\Theta"@, "Θ"@)
    } else if i == 46 {
        (r"\Sigma"@, "Σ"@)
    } else if i == 47 {
        (r"\Omega"@, "Ω"@)
    } else if i == 48 {
        (r"\equiv"@, "≡"@)
    } else if i == 49 {
        (r"\simeq"@, "≃"@)
    } else if i == 50 {
        (r"\doteq"@, "≐"@)
    } else if i == 51 {
        (r"\notin"@, "∉"@)
    } else if i == 52 {
        (r"\times"@, "×"@)
    } else if i == 53 {
        (r"\oplus"@, "⊕"@)
    } else if i == 54 {
        (r"\infty"@, "∞"@)
    } else if i == 55 {
        (r"\nabla"@, "∇"@)
    } else if i == 56 {
        (r"\ldots"@, "…"@)
    } else if i == 57 {
        (r"\cdots"@, "⋯"@)
    } else if i == 58 {
        (r"\vdots"@, "⋮"@)
    } else if i == 59 {
        (r"\ddots"@, "⋱"@)
    } else if i == 60 {
        (r"\angle"@, "∠"@)
    } else if i == 61 {
        (r"\aleph"@, "ℵ"@)
    } else if i == 62 {
        (r"\lceil"@, "⌈"@)
    } else if i == 63 {
        (r"\rceil"@, "⌉"@)
    } else if i == 64 {
        (r"\beta"@, "β"@)
    } else if i == 65 {
        (r"\zeta"@, "ζ"@)
    } else if i == 66 {
        (r"\iota"@, "ι"@)
    } else if i == 67 {
        (r"\cong"@, "≅"@)
    } else if i == 68 {
        (r"\land"@, "∧"@)
    } else if i == 69 {
        (r"\cdot"@, "⋅"@)
    } else if i == 70 {
        (r"\odot"@, "⊙"@)
    } else if i == 71 {
        (r"\prod"@, "∏"@)
    } else if i == 72 {
        (r"\eta"@, "η"@)
    } else if i == 73 {
        (r"\rho"@, "ρ"@)
    } else if i == 74 {
        (r"\tau"@, "τ"@)
    } else if i == 75 {
        (r"\phi"@, "φ"@)
    } else if i == 76 {
        (r"\chi"@, "χ"@)
    } else if i == 77 {
        (r"\psi"@, "ψ"@)
    } else if i == 78 {
        (r"\Phi"@, "Φ"@)
    } else if i == 79 {
        (r"\Psi"@, "Ψ"@)
    } else if i == 80 {
        (r"\neq"@, "≠"@)
    } else if i == 81 {
        (r"\leq"@, "≤"@)
    } else if i == 82 {
        (r"\geq"@, "≥"@)
    } else if i == 83 {
        (r"\sim"@, "∼"@)
    } else if i == 84 {
        (r"\neg"@, "¬"@)
    } else if i == 85 {
        (r"\lor"@, "∨"@)
    } else if i == 86 {
        (r"\div"@, "÷"@)
    } else if i == 87 {
        (r"\int"@, "∫"@)
    } else if i == 88 {
        (r"\sum"@, "∑"@)
    } else if i == 89 {
        (r"\cap"@, "∩"@)
    } else if i == 90 {
        (r"\cup"@, "∪"@)
    } else if i == 91 {
        (r"\Box"@, "□"@)
    } else if i == 92 {
        (r"\mu"@, "μ"@)
    } else if i == 93 {
        (r"\nu"@, "ν"@)
    } else if i == 94 {
        (r"\xi"@, "ξ"@)
    } else if i == 95 {
        (r"\pi"@, "π"@)
    } else if i == 96 {
        (r"\Xi"@, "Ξ"@)
    } else if i == 97 {
        (r"\Pi"@, "Π"@)
    } else if i == 98 {
        (r"\ll"@, "≪"@)
    } else if i == 99 {
        (r"\gg"@, "≫"@)
    } else if i == 100 {
        (r"\in"@, "∈"@)
    } else if i == 101 {
        (r"\ni"@, "∋"@)
    } else if i == 102 {
        (r"\to"@, "→"@)
    } else if i == 103 {
        (r"\pm"@, "±"@)
    } else if i == 104 {
        (r"\mp"@, "∓"@)
    } else if i == 105 {
        (r"\Re"@, "ℜ"@)
    } else if i == 106 {
        (r"\Im"@, "ℑ"@)
    } else {
        (r"\"@, ""@)
    }
}

/// The command with number `i` and the character that stands for it.
fn symbol_at(i: usize) -> (r: (&'static str, &'static str))
    ensures
        (r.0@, r.1@) == symbol(i as int),
{
    proof {
        reveal(symbol);
    }
    match i {
        0 => (r"\leftrightarrow", "↔"),
        1 => (r"\varepsilon", "ε"),
        2 => (r"\rightarrow", "→"),
        3 => (r"\Rightarrow", "⇒"),
        4 => (r"\leftarrow", "←"),
        5 => (r"\Leftarrow", "⇐"),
        6 => (r"\downarrow", "↓"),
        7 => (r"\vartheta", "ϑ"),
        8 => (r"\varsigma", "ς"),
        9 => (r"\subseteq", "⊆"),
        10 => (r"\supseteq", "⊇"),
        11 => (r"\emptyset", "∅"),
        12 => (r"\triangle", "△"),
        13 => (r"\epsilon", "ε"),
        14 => (r"\upsilon", "υ"),
        15 => (r"\Upsilon", "Υ"),
        16 => (r"\uparrow", "↑"),
        17 => (r"\partial", "∂"),
        18 => (r"\lambda", "λ"),
        19 => (r"\varrho", "ϱ"),
        20 => (r"\varphi", "ϕ"),
        21 => (r"\Lambda", "Λ"),
        22 => (r"\propto", "∝"),
        23 => (r"\approx", "≈"),
        24 => (r"\subset", "⊂"),
        25 => (r"\supset", "⊃"),
        26 => (r"\forall", "∀"),
        27 => (r"\exists", "∃"),
        28 => (r"\mapsto", "↦"),
        29 => (r"\otimes", "⊗"),
        30 => (r"\square", "□"),
        31 => (r"\langle", "⟨"),
        32 => (r"\rangle", "⟩"),
        33 => (r"\lfloor", "⌊"),
        34 => (r"\rfloor", "⌋"),
        35 => (r"\alpha", "α"),
        36 => (r"\gamma", "γ"),
        37 => (r"\delta", "δ"),
        38 => (r"\theta", "θ"),
        39 => (r"\kappa", "κ"),
        40 => (r"\varpi", "ϖ"),
        41 => (r"\sigma", "σ"),
        42 => (r"\omega", "ω"),
        43 => (r"\Gamma", "Γ"),
        44 => (r"\Delta", "Δ"),
        45 => (r"\Theta", "Θ"),
        46 => (r"\Sigma", "Σ"),
        47 => (r"\Omega", "Ω"),
        48 => (r"\equiv", "≡"),
        49 => (r"\simeq", "≃"),
        50 => (r"\doteq", "≐"),
        51 => (r"\notin", "∉"),
        52 => (r"\times", "×"),
        53 => (r"\oplus", "⊕"),
        54 => (r"\infty", "∞"),
        55 => (r"\nabla", "∇"),
        56 => (r"\ldots", "…"),
        57 => (r"\cdots", "⋯"),
        58 => (r"\vdots", "⋮"),
        59 => (r"\ddots", "⋱"),
        60 => (r"\angle", "∠"),
        61 => (r"\aleph", "ℵ"),
        62 => (r"\lceil", "⌈"),
        63 => (r"\rceil", "⌉"),
        64 => (r"\beta", "β"),
        65 => (r"\zeta", "ζ"),
        66 => (r"\iota", "ι"),
        67 => (r"\cong", "≅"),
        68 => (r"\land", "∧"),
        69 => (r"\cdot", "⋅"),
        70 => (r"\odot", "⊙"),
        71 => (r"\prod", "∏"),
        72 => (r"\eta", "η"),
        73 => (r"\rho", "ρ"),
        74 => (r"\tau", "τ"),
        75 => (r"\phi", "φ"),
        76 => (r"\chi", "χ"),
        77 => (r"\psi", "ψ"),
        78 => (r"\Phi", "Φ"),
        79 => (r"\Psi", "Ψ"),
        80 => (r"\neq", "≠"),
        81 => (r"\leq", "≤"),
        82 => (r"\geq", "≥"),
        83 => (r"\sim", "∼"),
        84 => (r"\neg", "¬"),
        85 => (r"\lor", "∨"),
        86 => (r"\div", "÷"),
        87 => (r"\int", "∫"),
        88 => (r"\sum", "∑"),
        89 => (r"\cap", "∩"),
        90 => (r"\cup", "∪"),
        91 => (r"\Box", "□"),
        92 => (r"\mu", "μ"),
        93 => (r"\nu", "ν"),
        94 => (r"\xi", "ξ"),
        95 => (r"\pi", "π"),
        96 => (r"\Xi", "Ξ"),
        97 => (r"\Pi", "Π"),
        98 => (r"\ll", "≪"),
        99 => (r"\gg", "≫"),
        100 => (r"\in", "∈"),
        101 => (r"\ni", "∋"),
        102 => (r"\to", "→"),
        103 => (r"\pm", "±"),
        104 => (r"\mp", "∓"),
        105 => (r"\Re", "ℜ"),
        106 => (r"\Im", "ℑ"),
        _ => (r"\", ""),
    }
}

/// A text in which the first `n` commands are replaced, one after the other.
pub open spec fn with_symbols(s: Seq<char>, n: int) -> Seq<char>
    decreases n,
{
    if n <= 0 {
        s
    } else {
        replace_of(with_symbols(s, n - 1), symbol(n - 1).0, symbol(n - 1).1)
    }
}

/// No command is empty.
proof fn lemma_command_not_empty(i: int)
    ensures
        symbol(i).0.len() > 0,
{
    reveal(symbol);
    reveal_strlit(r"\leftrightarrow");
    reveal_strlit(r"\varepsilon");
    reveal_strlit(r"\rightarrow");
    reveal_strlit(r"\Rightarrow");
    reveal_strlit(r"\leftarrow");
    reveal_strlit(r"\Leftarrow");
    reveal_strlit(r"\downarrow");
    reveal_strlit(r"\vartheta");
    reveal_strlit(r"\varsigma");
    reveal_strlit(r"\subseteq");
    reveal_strlit(r"\supseteq");
    reveal_strlit(r"\emptyset");
    reveal_strlit(r"\triangle");
    reveal_strlit(r"\epsilon");
    reveal_strlit(r"\upsilon");
    reveal_strlit(r"\Upsilon");
    reveal_strlit(r"\uparrow");
    reveal_strlit(r"\partial");
    reveal_strlit(r"\lambda");
    reveal_strlit(r"\varrho");
    reveal_strlit(r"\varphi");
    reveal_strlit(r"\Lambda");
    reveal_strlit(r"\propto");
    reveal_strlit(r"\approx");
    reveal_strlit(r"\subset");
    reveal_strlit(r"\supset");
    reveal_strlit(r"\forall");
    reveal_strlit(r"\exists");
    reveal_strlit(r"\mapsto");
    reveal_strlit(r"\otimes");
    reveal_strlit(r"\square");
    reveal_strlit(r"\langle");
    reveal_strlit(r"\rangle");
    reveal_strlit(r"\lfloor");
    reveal_strlit(r"\rfloor");
    reveal_strlit(r"\alpha");
    reveal_strlit(r"\gamma");
    reveal_strlit(r"\delta");
    reveal_strlit(r"\theta");
    reveal_strlit(r"\kappa");
    reveal_strlit(r"\varpi");
    reveal_strlit(r"\sigma");
    reveal_strlit(r"\omega");
    reveal_strlit(r"\Gamma");
    reveal_strlit(r"\Delta");
    reveal_strlit(r"\Theta");
    reveal_strlit(r"\Sigma");
    reveal_strlit(r"\Omega");
    reveal_strlit(r"\equiv");
    reveal_strlit(r"\simeq");
    reveal_strlit(r"\doteq");
    reveal_strlit(r"\notin");
    reveal_strlit(r"\times");
    reveal_strlit(r"\oplus");
    reveal_strlit(r"\infty");
    reveal_strlit(r"\nabla");
    reveal_strlit(r"\ldots");
    reveal_strlit(r"\cdots");
    reveal_strlit(r"\vdots");
    reveal_strlit(r"\ddots");
    reveal_strlit(r"\angle");
    reveal_strlit(r"\aleph");
    reveal_strlit(r"\lceil");
    reveal_strlit(r"\rceil");
    reveal_strlit(r"\beta");
    reveal_strlit(r"\zeta");
    reveal_strlit(r"\iota");
    reveal_strlit(r"\cong");
    reveal_strlit(r"\land");
    reveal_strlit(r"\cdot");
    reveal_strlit(r"\odot");
    reveal_strlit(r"\prod");
    reveal_strlit(r"\eta");
    reveal_strlit(r"\rho");
    reveal_strlit(r"\tau");
    reveal_strlit(r"\phi");
    reveal_strlit(r"\chi");
    reveal_strlit(r"\psi");
    reveal_strlit(r"\Phi");
    reveal_strlit(r"\Psi");
    reveal_strlit(r"\neq");
    reveal_strlit(r"\leq");
    reveal_strlit(r"\geq");
    reveal_strlit(r"\sim");
    reveal_strlit(r"\neg");
    reveal_strlit(r"\lor");
    reveal_strlit(r"\div");
    reveal_strlit(r"\int");
    reveal_strlit(r"\sum");
    reveal_strlit(r"\cap");
    reveal_strlit(r"\cup");
    reveal_strlit(r"\Box");
    reveal_strlit(r"\mu");
    reveal_strlit(r"\nu");
    reveal_strlit(r"\xi");
    reveal_strlit(r"\pi");
    reveal_strlit(r"\Xi");
    reveal_strlit(r"\Pi");
    reveal_strlit(r"\ll");
    reveal_strlit(r"\gg");
    reveal_strlit(r"\in");
    reveal_strlit(r"\ni");
    reveal_strlit(r"\to");
    reveal_strlit(r"\pm");
    reveal_strlit(r"\mp");
    reveal_strlit(r"\Re");
    reveal_strlit(r"\Im");
    reveal_strlit(r"\");
}

/// Translate common LaTeX math commands to the characters that stand for them.
/// Long commands are replaced before short ones, so that none is cut apart by a
/// command that it starts with.
pub fn translate_latex_math_to_typst(math: &str) -> (r: String)
    ensures
        r@ == with_symbols(math@, SYMBOL_COUNT as int),
{
    let mut out = math.to_owned();
    let mut i: usize = 0;
    while i < SYMBOL_COUNT
        invariant
            i <= SYMBOL_COUNT,
            out@ == with_symbols(math@, i as int),
        decreases SYMBOL_COUNT - i,
    {
        let (command, character) = symbol_at(i);
        proof {
            lemma_command_not_empty(i as int);
        }
        out = replace(out.as_str(), command, character);
        i += 1;
    }
    out
}

/// No command is longer than one that is replaced before it.
pub proof fn law_long_commands_first(i: int, j: int)
    requires
        0 <= i <= j < SYMBOL_COUNT,
    ensures
        symbol(j).0.len() <= symbol(i).0.len(),
{
    lemma_command_length(i);
    lemma_command_length(j);
}

/// How long the commands are.
pub open spec fn command_length(i: int) -> int {
    if i < 1 {
        15
    } else if i < 4 {
        11
    } else if i < 7 {
        10
    } else if i < 13 {
        9
    } else if i < 18 {
        8
    } else if i < 35 {
        7
    } else if i < 64 {
        6
    } else if i < 72 {
        5
    } else if i < 92 {
        4
    } else if i < 107 {
        3
    } else {
        0
    }
}

/// How long the commands are.
proof fn lemma_command_length(i: int)
    requires
        0 <= i < SYMBOL_COUNT,
    ensures
        symbol(i).0.len() == command_length(i),
{
    reveal(symbol);
    reveal_strlit(r"\leftrightarrow");
    reveal_strlit(r"\varepsilon");
    reveal_strlit(r"\rightarrow");
    reveal_strlit(r"\Rightarrow");
    reveal_strlit(r"\leftarrow");
    reveal_strlit(r"\Leftarrow");
    reveal_strlit(r"\downarrow");
    reveal_strlit(r"\vartheta");
    reveal_strlit(r"\varsigma");
    reveal_strlit(r"\subseteq");
    reveal_strlit(r"\supseteq");
    reveal_strlit(r"\emptyset");
    reveal_strlit(r"\triangle");
    reveal_strlit(r"\epsilon");
    reveal_strlit(r"\upsilon");
    reveal_strlit(r"\Upsilon");
    reveal_strlit(r"\uparrow");
    reveal_strlit(r"\partial");
    reveal_strlit(r"\lambda");
    reveal_strlit(r"\varrho");
    reveal_strlit(r"\varphi");
    reveal_strlit(r"\Lambda");
    reveal_strlit(r"\propto");
    reveal_strlit(r"\approx");
    reveal_strlit(r"\subset");
    reveal_strlit(r"\supset");
    reveal_strlit(r"\forall");
    reveal_strlit(r"\exists");
    reveal_strlit(r"\mapsto");
    reveal_strlit(r"\otimes");
    reveal_strlit(r"\square");
    reveal_strlit(r"\langle");
    reveal_strlit(r"\rangle");
    reveal_strlit(r"\lfloor");
    reveal_strlit(r"\rfloor");
    reveal_strlit(r"\alpha");
    reveal_strlit(r"\gamma");
    reveal_strlit(r"\delta");
    reveal_strlit(r"\theta");
    reveal_strlit(r"\kappa");
    reveal_strlit(r"\varpi");
    reveal_strlit(r"\sigma");
    reveal_strlit(r"\omega");
    reveal_strlit(r"\Gamma");
    reveal_strlit(r"\Delta");
    reveal_strlit(r"\Theta");
    reveal_strlit(r"\Sigma");
    reveal_strlit(r"\Omega");
    reveal_strlit(r"\equiv");
    reveal_strlit(r"\simeq");
    reveal_strlit(r"\doteq");
    reveal_strlit(r"\notin");
    reveal_strlit(r"\times");
    reveal_strlit(r"\oplus");
    reveal_strlit(r"\infty");
    reveal_strlit(r"\nabla");
    reveal_strlit(r"\ldots");
    reveal_strlit(r"\cdots");
    reveal_strlit(r"\vdots");
    reveal_strlit(r"\ddots");
    reveal_strlit(r"\angle");
    reveal_strlit(r"\aleph");
    reveal_strlit(r"\lceil");
    reveal_strlit(r"\rceil");
    reveal_strlit(r"\beta");
    reveal_strlit(r"\zeta");
    reveal_strlit(r"\iota");
    reveal_strlit(r"\cong");
    reveal_strlit(r"\land");
    reveal_strlit(r"\cdot");
    reveal_strlit(r"\odot");
    reveal_strlit(r"\prod");
    reveal_strlit(r"\eta");
    reveal_strlit(r"\rho");
    reveal_strlit(r"\tau");
    reveal_strlit(r"\phi");
    reveal_strlit(r"\chi");
    reveal_strlit(r"\psi");
    reveal_strlit(r"\Phi");
    reveal_strlit(r"\Psi");
    reveal_strlit(r"\neq");
    reveal_strlit(r"\leq");
    reveal_strlit(r"\geq");
    reveal_strlit(r"\sim");
    reveal_strlit(r"\neg");
    reveal_strlit(r"\lor");
    reveal_strlit(r"\div");
    reveal_strlit(r"\int");
    reveal_strlit(r"\sum");
    reveal_strlit(r"\cap");
    reveal_strlit(r"\cup");
    reveal_strlit(r"\Box");
    reveal_strlit(r"\mu");
    reveal_strlit(r"\nu");
    reveal_strlit(r"\xi");
    reveal_strlit(r"\pi");
    reveal_strlit(r"\Xi");
    reveal_strlit(r"\Pi");
    reveal_strlit(r"\ll");
    reveal_strlit(r"\gg");
    reveal_strlit(r"\in");
    reveal_strlit(r"\ni");
    reveal_strlit(r"\to");
    reveal_strlit(r"\pm");
    reveal_strlit(r"\mp");
    reveal_strlit(r"\Re");
    reveal_strlit(r"\Im");
    reveal_strlit(r"\");
}

/// The only command in a text is replaced by its character everywhere, and a text without
/// commands stays as it is.
pub proof fn law_commands_become_characters(s: Seq<char>, k: int, n: int)
    requires
        0 <= k < n <= SYMBOL_COUNT,
        forall|i: int|
            0 <= i < n && i != k ==> !crate::text::contains_of(s, (#[trigger] symbol(i)).0),
        forall|i: int|
            k < i < n ==> !crate::text::contains_of(
                replace_of(s, symbol(k).0, symbol(k).1),
                (#[trigger] symbol(i)).0,
            ),
    ensures
        with_symbols(s, n) == replace_of(s, symbol(k).0, symbol(k).1),
        !crate::text::contains_of(s, symbol(k).0) ==> with_symbols(s, n) == s,
    decreases n,
{
    lemma_command_length(n - 1);
    lemma_command_length(k);
    if !crate::text::contains_of(s, symbol(k).0) {
        crate::text::law_nothing_to_replace(s, symbol(k).0, symbol(k).1);
    }
    if k == n - 1 {
        lemma_nothing_becomes_a_character(s, k);
    } else {
        law_commands_become_characters(s, k, n - 1);
        let t = replace_of(s, symbol(k).0, symbol(k).1);
        assert(!crate::text::contains_of(t, symbol(n - 1).0));
        crate::text::law_nothing_to_replace(t, symbol(n - 1).0, symbol(n - 1).1);
    }
}

/// A text stays as it is while none of its commands is replaced.
proof fn lemma_nothing_becomes_a_character(s: Seq<char>, n: int)
    requires
        0 <= n <= SYMBOL_COUNT,
        forall|i: int| 0 <= i < n ==> !crate::text::contains_of(s, (#[trigger] symbol(i)).0),
    ensures
        with_symbols(s, n) == s,
    decreases n,
{
    if n > 0 {
        lemma_nothing_becomes_a_character(s, n - 1);
        lemma_command_length(n - 1);
        assert(!crate::text::contains_of(s, symbol(n - 1).0));
        crate::text::law_nothing_to_replace(s, symbol(n - 1).0, symbol(n - 1).1);
    }
}

} // verus!
