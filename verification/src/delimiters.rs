use vstd::prelude::*;

verus! {

/// Whether `c` opens or closes a bracket or a quotation: the ASCII brackets and quotes and
/// their many Unicode kin.
pub open spec fn delimiter_char(c: char) -> bool {
    c == '(' || c == ')' || c == '[' || c == ']' || c == '{' || c == '}' || c == '｛' || c == '｝' || c == '（' || c == '）' || c == '［' || c == '］' || c == '【' || c == '】' || c == '「' || c == '」' || c == '『' || c == '』' || c == '〝' || c == '〞' || c == '〈' || c == '〉' || c == '《' || c == '》' || c == '〔' || c == '〕' || c == '〖' || c == '〗' || c == '〘' || c == '〙' || c == '〚' || c == '〛' || c == '«' || c == '»' || c == '‹' || c == '›' || c == '"' || c == '\'' || c == '‘' || c == '’' || c == '“' || c == '”' || c == '⁅' || c == '⁆' || c == '〈' || c == '〉' || c == '⎡' || c == '⎤' || c == '⎣' || c == '⎦' || c == '⎢' || c == '⎥' || c == '⎧' || c == '⎨' || c == '⎩' || c == '⎫' || c == '⎬' || c == '⎭' || c == '⎪' || c == '⎰' || c == '⎱' || c == '❬' || c == '❭' || c == '❮' || c == '❯' || c == '❰' || c == '❱' || c == '❴' || c == '❵' || c == '⟦' || c == '⟧' || c == '⟨' || c == '⟩' || c == '❲' || c == '❳' || c == '⦃' || c == '⦄' || c == '⦅' || c == '⦆' || c == '⦇' || c == '⦈' || c == '⦉' || c == '⦊' || c == '⦋' || c == '⦌' || c == '⦍' || c == '⦎' || c == '⦏' || c == '⦐' || c == '⦑' || c == '⦒' || c == '⦗' || c == '⦘' || c == '⧘' || c == '⧙' || c == '⧚' || c == '⧛' || c == '⧼' || c == '⧽' || c == '⸂' || c == '⸃' || c == '⸄' || c == '⸅' || c == '⸉' || c == '⸊' || c == '⸌' || c == '⸍' || c == '⸜' || c == '⸝' || c == '⸠' || c == '⸡' || c == '⸢' || c == '⸣' || c == '⸤' || c == '⸥' || c == '⸦' || c == '⸧' || c == '⸨' || c == '⸩'
}

/// Whether `c` opens or closes a bracket or a quotation.
pub fn is_delimiter(c: char) -> (b: bool)
    ensures
        b == delimiter_char(c),
{
    c == '(' || c == ')' || c == '[' || c == ']' || c == '{' || c == '}' || c == '｛' || c == '｝' || c == '（' || c == '）' || c == '［' || c == '］' || c == '【' || c == '】' || c == '「' || c == '」' || c == '『' || c == '』' || c == '〝' || c == '〞' || c == '〈' || c == '〉' || c == '《' || c == '》' || c == '〔' || c == '〕' || c == '〖' || c == '〗' || c == '〘' || c == '〙' || c == '〚' || c == '〛' || c == '«' || c == '»' || c == '‹' || c == '›' || c == '"' || c == '\'' || c == '‘' || c == '’' || c == '“' || c == '”' || c == '⁅' || c == '⁆' || c == '〈' || c == '〉' || c == '⎡' || c == '⎤' || c == '⎣' || c == '⎦' || c == '⎢' || c == '⎥' || c == '⎧' || c == '⎨' || c == '⎩' || c == '⎫' || c == '⎬' || c == '⎭' || c == '⎪' || c == '⎰' || c == '⎱' || c == '❬' || c == '❭' || c == '❮' || c == '❯' || c == '❰' || c == '❱' || c == '❴' || c == '❵' || c == '⟦' || c == '⟧' || c == '⟨' || c == '⟩' || c == '❲' || c == '❳' || c == '⦃' || c == '⦄' || c == '⦅' || c == '⦆' || c == '⦇' || c == '⦈' || c == '⦉' || c == '⦊' || c == '⦋' || c == '⦌' || c == '⦍' || c == '⦎' || c == '⦏' || c == '⦐' || c == '⦑' || c == '⦒' || c == '⦗' || c == '⦘' || c == '⧘' || c == '⧙' || c == '⧚' || c == '⧛' || c == '⧼' || c == '⧽' || c == '⸂' || c == '⸃' || c == '⸄' || c == '⸅' || c == '⸉' || c == '⸊' || c == '⸌' || c == '⸍' || c == '⸜' || c == '⸝' || c == '⸠' || c == '⸡' || c == '⸢' || c == '⸣' || c == '⸤' || c == '⸥' || c == '⸦' || c == '⸧' || c == '⸨' || c == '⸩'
}

/// Whether `l` and `r` open and close one pair of brackets or quotes.
pub open spec fn pair_of(l: char, r: char) -> bool {
    (l == '(' && r == ')') || (l == '{' && r == '}') || (l == '[' && r == ']') || (l == '｛' && r == '｝') || (l == '（' && r == '）') || (l == '［' && r == '］') || (l == '【' && r == '】') || (l == '「' && r == '」') || (l == '『' && r == '』') || (l == '〝' && r == '〞') || (l == '〈' && r == '〉') || (l == '《' && r == '》') || (l == '〔' && r == '〕') || (l == '〖' && r == '〗') || (l == '〘' && r == '〙') || (l == '〚' && r == '〛') || (l == '«' && r == '»') || (l == '‹' && r == '›') || (l == '"' && r == '"') || (l == '\'' && r == '\'') || (l == '‘' && r == '’') || (l == '“' && r == '”') || (l == '⁅' && r == '⁆') || (l == '〈' && r == '〉') || (l == '⎡' && r == '⎤') || (l == '⎢' && r == '⎥') || (l == '⎣' && r == '⎦') || (l == '⎧' && r == '⎫') || (l == '⎨' && r == '⎬') || (l == '⎩' && r == '⎭') || (l == '⎪' && r == '⎪') || (l == '⎰' && r == '⎱') || (l == '⎱' && r == '⎰') || (l == '❬' && r == '❭') || (l == '❮' && r == '❯') || (l == '❰' && r == '❱') || (l == '❴' && r == '❵') || (l == '⟦' && r == '⟧') || (l == '⟨' && r == '⟩') || (l == '❲' && r == '❳') || (l == '⦃' && r == '⦄') || (l == '⦅' && r == '⦆') || (l == '⦇' && r == '⦈') || (l == '⦉' && r == '⦊') || (l == '⦋' && r == '⦌') || (l == '⦍' && r == '⦎') || (l == '⦏' && r == '⦐') || (l == '⦑' && r == '⦒') || (l == '⦗' && r == '⦘') || (l == '⧘' && r == '⧙') || (l == '⧚' && r == '⧛') || (l == '⧼' && r == '⧽') || (l == '⸂' && r == '⸃') || (l == '⸄' && r == '⸅') || (l == '⸉' && r == '⸊') || (l == '⸌' && r == '⸍') || (l == '⸜' && r == '⸝') || (l == '⸠' && r == '⸡') || (l == '⸢' && r == '⸣') || (l == '⸤' && r == '⸥') || (l == '⸦' && r == '⸧') || (l == '⸨' && r == '⸩')
}

/// Whether `left` and `right` open and close one pair of brackets or quotes.
pub fn is_pair(left: char, right: char) -> (b: bool)
    ensures
        b == pair_of(left, right),
{
    let l = left;
    let r = right;
    (l == '(' && r == ')') || (l == '{' && r == '}') || (l == '[' && r == ']') || (l == '｛' && r == '｝') || (l == '（' && r == '）') || (l == '［' && r == '］') || (l == '【' && r == '】') || (l == '「' && r == '」') || (l == '『' && r == '』') || (l == '〝' && r == '〞') || (l == '〈' && r == '〉') || (l == '《' && r == '》') || (l == '〔' && r == '〕') || (l == '〖' && r == '〗') || (l == '〘' && r == '〙') || (l == '〚' && r == '〛') || (l == '«' && r == '»') || (l == '‹' && r == '›') || (l == '"' && r == '"') || (l == '\'' && r == '\'') || (l == '‘' && r == '’') || (l == '“' && r == '”') || (l == '⁅' && r == '⁆') || (l == '〈' && r == '〉') || (l == '⎡' && r == '⎤') || (l == '⎢' && r == '⎥') || (l == '⎣' && r == '⎦') || (l == '⎧' && r == '⎫') || (l == '⎨' && r == '⎬') || (l == '⎩' && r == '⎭') || (l == '⎪' && r == '⎪') || (l == '⎰' && r == '⎱') || (l == '⎱' && r == '⎰') || (l == '❬' && r == '❭') || (l == '❮' && r == '❯') || (l == '❰' && r == '❱') || (l == '❴' && r == '❵') || (l == '⟦' && r == '⟧') || (l == '⟨' && r == '⟩') || (l == '❲' && r == '❳') || (l == '⦃' && r == '⦄') || (l == '⦅' && r == '⦆') || (l == '⦇' && r == '⦈') || (l == '⦉' && r == '⦊') || (l == '⦋' && r == '⦌') || (l == '⦍' && r == '⦎') || (l == '⦏' && r == '⦐') || (l == '⦑' && r == '⦒') || (l == '⦗' && r == '⦘') || (l == '⧘' && r == '⧙') || (l == '⧚' && r == '⧛') || (l == '⧼' && r == '⧽') || (l == '⸂' && r == '⸃') || (l == '⸄' && r == '⸅') || (l == '⸉' && r == '⸊') || (l == '⸌' && r == '⸍') || (l == '⸜' && r == '⸝') || (l == '⸠' && r == '⸡') || (l == '⸢' && r == '⸣') || (l == '⸤' && r == '⸥') || (l == '⸦' && r == '⸧') || (l == '⸨' && r == '⸩')
}

} // verus!
