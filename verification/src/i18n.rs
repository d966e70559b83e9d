//! The message catalog: every diagnostic text the checker can emit, in each
//! supported locale. Each message has a spec-level text, so that contracts
//! elsewhere can state exactly which rendered message an issue carries.

use vstd::prelude::*;

verus! {

use vstd::string::StringExecFns;
use crate::text::{dec_str, dec_string};

#[derive(Debug, Clone, PartialEq, Eq, Structural)]
pub enum Language {
    English,
    Japanese,
}

/// One localized message: its text in each supported locale.
pub struct Message {
    pub en: &'static str,
    pub ja: &'static str,
}

impl Message {
    /// The text of this message in the given locale.
    pub open spec fn text(self, lang: Language) -> Seq<char> {
        match lang {
            Language::English => self.en@,
            Language::Japanese => self.ja@,
        }
    }

    pub fn get(&self, lang: &Language) -> (r: &'static str)
        ensures
            r@ == self.text(*lang),
    {
        match lang {
            Language::English => self.en,
            Language::Japanese => self.ja,
        }
    }
}

// --- Severity labels and summary words ---

pub open spec fn severity_error_text(lang: Language) -> Seq<char> {
    match lang {
        Language::English => "ERROR"@,
        Language::Japanese => "エラー"@,
    }
}

pub fn severity_error() -> (m: Message)
    ensures
        forall|lang: Language| m.text(lang) == severity_error_text(lang),
{
    Message { en: "ERROR", ja: "エラー" }
}

pub open spec fn severity_warning_text(lang: Language) -> Seq<char> {
    match lang {
        Language::English => "WARNING"@,
        Language::Japanese => "警告"@,
    }
}

pub fn severity_warning() -> (m: Message)
    ensures
        forall|lang: Language| m.text(lang) == severity_warning_text(lang),
{
    Message { en: "WARNING", ja: "警告" }
}

pub open spec fn severity_info_text(lang: Language) -> Seq<char> {
    match lang {
        Language::English => "INFO"@,
        Language::Japanese => "情報"@,
    }
}

pub fn severity_info() -> (m: Message)
    ensures
        forall|lang: Language| m.text(lang) == severity_info_text(lang),
{
    Message { en: "INFO", ja: "情報" }
}

pub open spec fn no_issues_text(lang: Language) -> Seq<char> {
    match lang {
        Language::English => "✓ No issues found"@,
        Language::Japanese => "✓ 問題は見つかりませんでした"@,
    }
}

pub fn no_issues() -> (m: Message)
    ensures
        forall|lang: Language| m.text(lang) == no_issues_text(lang),
{
    Message { en: "✓ No issues found", ja: "✓ 問題は見つかりませんでした" }
}

pub open spec fn summary_text(lang: Language) -> Seq<char> {
    match lang {
        Language::English => "Summary"@,
        Language::Japanese => "サマリ"@,
    }
}

pub fn summary() -> (m: Message)
    ensures
        forall|lang: Language| m.text(lang) == summary_text(lang),
{
    Message { en: "Summary", ja: "サマリ" }
}

pub open spec fn errors_word_text(lang: Language) -> Seq<char> {
    match lang {
        Language::English => "error(s)"@,
        Language::Japanese => "個のエラー"@,
    }
}

pub fn errors_word() -> (m: Message)
    ensures
        forall|lang: Language| m.text(lang) == errors_word_text(lang),
{
    Message { en: "error(s)", ja: "個のエラー" }
}

pub open spec fn warnings_word_text(lang: Language) -> Seq<char> {
    match lang {
        Language::English => "warning(s)"@,
        Language::Japanese => "個の警告"@,
    }
}

pub fn warnings_word() -> (m: Message)
    ensures
        forall|lang: Language| m.text(lang) == warnings_word_text(lang),
{
    Message { en: "warning(s)", ja: "個の警告" }
}

// --- Category names ---

pub open spec fn cat_syntax_text(lang: Language) -> Seq<char> {
    match lang {
        Language::English => "Syntax"@,
        Language::Japanese => "構文"@,
    }
}

pub fn cat_syntax() -> (m: Message)
    ensures
        forall|lang: Language| m.text(lang) == cat_syntax_text(lang),
{
    Message { en: "Syntax", ja: "構文" }
}

pub open spec fn cat_best_practice_text(lang: Language) -> Seq<char> {
    match lang {
        Language::English => "Best Practice"@,
        Language::Japanese => "ベストプラクティス"@,
    }
}

pub fn cat_best_practice() -> (m: Message)
    ensures
        forall|lang: Language| m.text(lang) == cat_best_practice_text(lang),
{
    Message { en: "Best Practice", ja: "ベストプラクティス" }
}

pub open spec fn cat_security_text(lang: Language) -> Seq<char> {
    match lang {
        Language::English => "Security"@,
        Language::Japanese => "セキュリティ"@,
    }
}

pub fn cat_security() -> (m: Message)
    ensures
        forall|lang: Language| m.text(lang) == cat_security_text(lang),
{
    Message { en: "Security", ja: "セキュリティ" }
}

pub open spec fn cat_style_text(lang: Language) -> Seq<char> {
    match lang {
        Language::English => "Style"@,
        Language::Japanese => "スタイル"@,
    }
}

pub fn cat_style() -> (m: Message)
    ensures
        forall|lang: Language| m.text(lang) == cat_style_text(lang),
{
    Message { en: "Style", ja: "スタイル" }
}

// --- Syntax messages ---

pub open spec fn msg_missing_shebang_text(lang: Language) -> Seq<char> {
    match lang {
        Language::English => "Missing shebang line (#!/bin/bash or #!/bin/sh)"@,
        Language::Japanese => "シバン行がありません (#!/bin/bash または #!/bin/sh)"@,
    }
}

pub fn msg_missing_shebang() -> (m: Message)
    ensures
        forall|lang: Language| m.text(lang) == msg_missing_shebang_text(lang),
{
    Message {
        en: "Missing shebang line (#!/bin/bash or #!/bin/sh)",
        ja: "シバン行がありません (#!/bin/bash または #!/bin/sh)",
    }
}

pub open spec fn msg_invalid_shebang_text(lang: Language) -> Seq<char> {
    match lang {
        Language::English => "Shebang does not specify bash or sh"@,
        Language::Japanese => "シバン行でbashまたはshが指定されていません"@,
    }
}

pub fn msg_invalid_shebang() -> (m: Message)
    ensures
        forall|lang: Language| m.text(lang) == msg_invalid_shebang_text(lang),
{
    Message {
        en: "Shebang does not specify bash or sh",
        ja: "シバン行でbashまたはshが指定されていません",
    }
}

pub open spec fn msg_unmatched_bracket_text(lang: Language) -> Seq<char> {
    match lang {
        Language::English => "Unmatched closing bracket ']'"@,
        Language::Japanese => "対応しない閉じ括弧 ']'"@,
    }
}

pub fn msg_unmatched_bracket() -> (m: Message)
    ensures
        forall|lang: Language| m.text(lang) == msg_unmatched_bracket_text(lang),
{
    Message { en: "Unmatched closing bracket ']'", ja: "対応しない閉じ括弧 ']'" }
}

pub open spec fn msg_unclosed_bracket_text(lang: Language) -> Seq<char> {
    match lang {
        Language::English => "Unclosed bracket '['"@,
        Language::Japanese => "閉じられていない括弧 '['"@,
    }
}

pub fn msg_unclosed_bracket() -> (m: Message)
    ensures
        forall|lang: Language| m.text(lang) == msg_unclosed_bracket_text(lang),
{
    Message { en: "Unclosed bracket '['", ja: "閉じられていない括弧 '['" }
}

pub open spec fn msg_unclosed_brace_text(lang: Language) -> Seq<char> {
    match lang {
        Language::English => "Unclosed brace '{'"@,
        Language::Japanese => "閉じられていない波括弧 '{'"@,
    }
}

pub fn msg_unclosed_brace() -> (m: Message)
    ensures
        forall|lang: Language| m.text(lang) == msg_unclosed_brace_text(lang),
{
    Message { en: "Unclosed brace '{'", ja: "閉じられていない波括弧 '{'" }
}

pub open spec fn msg_unclosed_paren_text(lang: Language) -> Seq<char> {
    match lang {
        Language::English => "Unclosed parenthesis '('"@,
        Language::Japanese => "閉じられていない丸括弧 '('"@,
    }
}

pub fn msg_unclosed_paren() -> (m: Message)
    ensures
        forall|lang: Language| m.text(lang) == msg_unclosed_paren_text(lang),
{
    Message { en: "Unclosed parenthesis '('", ja: "閉じられていない丸括弧 '('" }
}

pub open spec fn msg_unclosed_single_quote_text(lang: Language) -> Seq<char> {
    match lang {
        Language::English => "Unclosed single quote"@,
        Language::Japanese => "閉じられていないシングルクォート"@,
    }
}

pub fn msg_unclosed_single_quote() -> (m: Message)
    ensures
        forall|lang: Language| m.text(lang) == msg_unclosed_single_quote_text(lang),
{
    Message { en: "Unclosed single quote", ja: "閉じられていないシングルクォート" }
}

pub open spec fn msg_unclosed_double_quote_text(lang: Language) -> Seq<char> {
    match lang {
        Language::English => "Unclosed double quote"@,
        Language::Japanese => "閉じられていないダブルクォート"@,
    }
}

pub fn msg_unclosed_double_quote() -> (m: Message)
    ensures
        forall|lang: Language| m.text(lang) == msg_unclosed_double_quote_text(lang),
{
    Message { en: "Unclosed double quote", ja: "閉じられていないダブルクォート" }
}

pub open spec fn msg_unclosed_var_expansion_text(lang: Language) -> Seq<char> {
    match lang {
        Language::English => "Unclosed variable expansion ${...}"@,
        Language::Japanese => "閉じられていない変数展開 ${...}"@,
    }
}

pub fn msg_unclosed_var_expansion() -> (m: Message)
    ensures
        forall|lang: Language| m.text(lang) == msg_unclosed_var_expansion_text(lang),
{
    Message { en: "Unclosed variable expansion ${...}", ja: "閉じられていない変数展開 ${...}" }
}

pub open spec fn msg_unclosed_cmd_subst_text(lang: Language) -> Seq<char> {
    match lang {
        Language::English => "Unclosed command substitution $(...)"@,
        Language::Japanese => "閉じられていないコマンド置換 $(...)"@,
    }
}

pub fn msg_unclosed_cmd_subst() -> (m: Message)
    ensures
        forall|lang: Language| m.text(lang) == msg_unclosed_cmd_subst_text(lang),
{
    Message { en: "Unclosed command substitution $(...)", ja: "閉じられていないコマンド置換 $(...)" }
}

// --- Best-practice messages ---

pub open spec fn msg_use_set_e_text(lang: Language) -> Seq<char> {
    match lang {
        Language::English => "Consider using 'set -e' to exit on errors"@,
        Language::Japanese => "'set -e' の使用を検討してください（エラー時に終了）"@,
    }
}

pub fn msg_use_set_e() -> (m: Message)
    ensures
        forall|lang: Language| m.text(lang) == msg_use_set_e_text(lang),
{
    Message {
        en: "Consider using 'set -e' to exit on errors",
        ja: "'set -e' の使用を検討してください（エラー時に終了）",
    }
}

pub open spec fn msg_use_set_u_text(lang: Language) -> Seq<char> {
    match lang {
        Language::English => "Consider using 'set -u' to treat unset variables as errors"@,
        Language::Japanese => "'set -u' の使用を検討してください（未定義変数をエラーとして扱う）"@,
    }
}

pub fn msg_use_set_u() -> (m: Message)
    ensures
        forall|lang: Language| m.text(lang) == msg_use_set_u_text(lang),
{
    Message {
        en: "Consider using 'set -u' to treat unset variables as errors",
        ja: "'set -u' の使用を検討してください（未定義変数をエラーとして扱う）",
    }
}

pub open spec fn msg_use_set_pipefail_text(lang: Language) -> Seq<char> {
    match lang {
        Language::English => "Consider using 'set -o pipefail' to catch errors in pipelines"@,
        Language::Japanese => "'set -o pipefail' の使用を検討してください（パイプライン内のエラーを検出）"@,
    }
}

pub fn msg_use_set_pipefail() -> (m: Message)
    ensures
        forall|lang: Language| m.text(lang) == msg_use_set_pipefail_text(lang),
{
    Message {
        en: "Consider using 'set -o pipefail' to catch errors in pipelines",
        ja: "'set -o pipefail' の使用を検討してください（パイプライン内のエラーを検出）",
    }
}

pub open spec fn msg_unquoted_variable_text(lang: Language) -> Seq<char> {
    match lang {
        Language::English => "Unquoted variable usage - consider using \"$variable\" to prevent word splitting"@,
        Language::Japanese => "クォートされていない変数 - 単語分割を防ぐため \"$variable\" の使用を検討してください"@,
    }
}

pub fn msg_unquoted_variable() -> (m: Message)
    ensures
        forall|lang: Language| m.text(lang) == msg_unquoted_variable_text(lang),
{
    Message {
        en: "Unquoted variable usage - consider using \"$variable\" to prevent word splitting",
        ja: "クォートされていない変数 - 単語分割を防ぐため \"$variable\" の使用を検討してください",
    }
}

pub open spec fn msg_cd_without_check_text(lang: Language) -> Seq<char> {
    match lang {
        Language::English => "cd command without error checking - consider using 'cd dir || exit 1'"@,
        Language::Japanese => "cdコマンドにエラーチェックがありません - 'cd dir || exit 1' の使用を検討してください"@,
    }
}

pub fn msg_cd_without_check() -> (m: Message)
    ensures
        forall|lang: Language| m.text(lang) == msg_cd_without_check_text(lang),
{
    Message {
        en: "cd command without error checking - consider using 'cd dir || exit 1'",
        ja: "cdコマンドにエラーチェックがありません - 'cd dir || exit 1' の使用を検討してください",
    }
}

pub open spec fn msg_use_dollar_paren_text(lang: Language) -> Seq<char> {
    match lang {
        Language::English => "Use $(...) instead of backticks for command substitution"@,
        Language::Japanese => "コマンド置換にはバッククォートではなく $(...) を使用してください"@,
    }
}

pub fn msg_use_dollar_paren() -> (m: Message)
    ensures
        forall|lang: Language| m.text(lang) == msg_use_dollar_paren_text(lang),
{
    Message {
        en: "Use $(...) instead of backticks for command substitution",
        ja: "コマンド置換にはバッククォートではなく $(...) を使用してください",
    }
}

// --- Security messages ---

pub open spec fn msg_eval_dangerous_text(lang: Language) -> Seq<char> {
    match lang {
        Language::English => "Usage of 'eval' is dangerous - avoid dynamic code execution"@,
        Language::Japanese => "'eval' の使用は危険です - 動的なコード実行を避けてください"@,
    }
}

pub fn msg_eval_dangerous() -> (m: Message)
    ensures
        forall|lang: Language| m.text(lang) == msg_eval_dangerous_text(lang),
{
    Message {
        en: "Usage of 'eval' is dangerous - avoid dynamic code execution",
        ja: "'eval' の使用は危険です - 動的なコード実行を避けてください",
    }
}

pub open spec fn msg_curl_pipe_sh_text(lang: Language) -> Seq<char> {
    match lang {
        Language::English => "Piping curl/wget directly to shell is dangerous - download and inspect first"@,
        Language::Japanese => "curl/wgetを直接シェルにパイプするのは危険です - まずダウンロードして検査してください"@,
    }
}

pub fn msg_curl_pipe_sh() -> (m: Message)
    ensures
        forall|lang: Language| m.text(lang) == msg_curl_pipe_sh_text(lang),
{
    Message {
        en: "Piping curl/wget directly to shell is dangerous - download and inspect first",
        ja: "curl/wgetを直接シェルにパイプするのは危険です - まずダウンロードして検査してください",
    }
}

pub open spec fn msg_dangerous_rm_text(lang: Language) -> Seq<char> {
    match lang {
        Language::English => "Dangerous rm -rf usage with variable or root path - add proper validation"@,
        Language::Japanese => "変数またはルートパスでの危険な rm -rf の使用 - 適切な検証を追加してください"@,
    }
}

pub fn msg_dangerous_rm() -> (m: Message)
    ensures
        forall|lang: Language| m.text(lang) == msg_dangerous_rm_text(lang),
{
    Message {
        en: "Dangerous rm -rf usage with variable or root path - add proper validation",
        ja: "変数またはルートパスでの危険な rm -rf の使用 - 適切な検証を追加してください",
    }
}

pub open spec fn msg_user_input_in_cmd_text(lang: Language) -> Seq<char> {
    match lang {
        Language::English => "User input used in command execution - validate and sanitize input"@,
        Language::Japanese => "ユーザー入力がコマンド実行で使用されています - 入力の検証とサニタイズを行ってください"@,
    }
}

pub fn msg_user_input_in_cmd() -> (m: Message)
    ensures
        forall|lang: Language| m.text(lang) == msg_user_input_in_cmd_text(lang),
{
    Message {
        en: "User input used in command execution - validate and sanitize input",
        ja: "ユーザー入力がコマンド実行で使用されています - 入力の検証とサニタイズを行ってください",
    }
}

// --- Style messages ---

pub open spec fn msg_use_spaces_text(lang: Language) -> Seq<char> {
    match lang {
        Language::English => "Use spaces instead of tabs for indentation"@,
        Language::Japanese => "インデントにはタブではなくスペースを使用してください"@,
    }
}

pub fn msg_use_spaces() -> (m: Message)
    ensures
        forall|lang: Language| m.text(lang) == msg_use_spaces_text(lang),
{
    Message {
        en: "Use spaces instead of tabs for indentation",
        ja: "インデントにはタブではなくスペースを使用してください",
    }
}

pub open spec fn msg_inconsistent_indent_text(lang: Language) -> Seq<char> {
    match lang {
        Language::English => "Inconsistent indentation - use 2 or 4 spaces"@,
        Language::Japanese => "インデントが不統一です - 2または4スペースを使用してください"@,
    }
}

pub fn msg_inconsistent_indent() -> (m: Message)
    ensures
        forall|lang: Language| m.text(lang) == msg_inconsistent_indent_text(lang),
{
    Message {
        en: "Inconsistent indentation - use 2 or 4 spaces",
        ja: "インデントが不統一です - 2または4スペースを使用してください",
    }
}

// --- Parameterized messages ---

pub open spec fn msg_line_too_long_text(length: int, max: int, lang: Language) -> Seq<char> {
    match lang {
        Language::English => "Line too long ("@ + dec_str(length) + " > "@ + dec_str(max)
            + " characters)"@,
        Language::Japanese => "行が長すぎます ("@ + dec_str(length) + " > "@ + dec_str(max)
            + " 文字)"@,
    }
}

pub fn msg_line_too_long(length: usize, max: usize, lang: &Language) -> (r: String)
    ensures
        r@ == msg_line_too_long_text(length as int, max as int, *lang),
{
    let num_len = dec_string(length as u64);
    let num_max = dec_string(max as u64);
    match lang {
        Language::English => {
            let mut s = String::from_str("Line too long (");
            s.append(num_len.as_str());
            s.append(" > ");
            s.append(num_max.as_str());
            s.append(" characters)");
            s
        },
        Language::Japanese => {
            let mut s = String::from_str("行が長すぎます (");
            s.append(num_len.as_str());
            s.append(" > ");
            s.append(num_max.as_str());
            s.append(" 文字)");
            s
        },
    }
}

pub open spec fn msg_function_naming_text(func_name: Seq<char>, lang: Language) -> Seq<char> {
    match lang {
        Language::English => "Function name '"@ + func_name
            + "' should use snake_case (lowercase with underscores)"@,
        Language::Japanese => "関数名 '"@ + func_name
            + "' はスネークケース（小文字とアンダースコア）を使用してください"@,
    }
}

pub fn msg_function_naming(func_name: &str, lang: &Language) -> (r: String)
    ensures
        r@ == msg_function_naming_text(func_name@, *lang),
{
    match lang {
        Language::English => {
            let mut s = String::from_str("Function name '");
            s.append(func_name);
            s.append("' should use snake_case (lowercase with underscores)");
            s
        },
        Language::Japanese => {
            let mut s = String::from_str("関数名 '");
            s.append(func_name);
            s.append("' はスネークケース（小文字とアンダースコア）を使用してください");
            s
        },
    }
}

pub open spec fn msg_variable_naming_text(var_name: Seq<char>, lang: Language) -> Seq<char> {
    match lang {
        Language::English => "Local variable '"@ + var_name
            + "' should use lowercase with underscores"@,
        Language::Japanese => "ローカル変数 '"@ + var_name
            + "' は小文字とアンダースコアを使用してください"@,
    }
}

pub fn msg_variable_naming(var_name: &str, lang: &Language) -> (r: String)
    ensures
        r@ == msg_variable_naming_text(var_name@, *lang),
{
    match lang {
        Language::English => {
            let mut s = String::from_str("Local variable '");
            s.append(var_name);
            s.append("' should use lowercase with underscores");
            s
        },
        Language::Japanese => {
            let mut s = String::from_str("ローカル変数 '");
            s.append(var_name);
            s.append("' は小文字とアンダースコアを使用してください");
            s
        },
    }
}

} // verus!
