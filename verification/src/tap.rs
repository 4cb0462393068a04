//! The texts of the TAP driver installation: the error report, and the
//! PowerShell message box that shows it.

use vstd::prelude::*;
use crate::text::{chars_of, string_of};

verus! {

/// `s` as the body of a single-quoted PowerShell string: each `'` doubled.
pub open spec fn quote_doubled(s: Seq<char>) -> Seq<char>
    decreases s.len(),
{
    if s.len() == 0 {
        Seq::empty()
    } else {
        let r = quote_doubled(s.drop_last());
        if s.last() == '\'' {
            r + seq!['\'', '\'']
        } else {
            r.push(s.last())
        }
    }
}

/// Every `'` of `s` doubled, so that the text can stand between single
/// quotes in a PowerShell command.
pub fn double_single_quotes(s: &str) -> (res: String)
    ensures
        res@ == quote_doubled(s@),
{
    let v = chars_of(s);
    let mut r: Vec<char> = Vec::new();
    let n = v.len();
    for i in 0..n
        invariant
            n == v@.len(),
            v@ == s@,
            r@ == quote_doubled(v@.take(i as int)),
    {
        assert(v@.take(i + 1).drop_last() =~= v@.take(i as int));
        assert(v@.take(i + 1).last() == v@[i as int]);
        let ghost before = r@;
        if v[i] == '\'' {
            r.push('\'');
            r.push('\'');
            assert(r@ =~= before + seq!['\'', '\'']);
        } else {
            r.push(v[i]);
        }
    }
    assert(v@.take(n as int) =~= v@);
    string_of(r.as_slice())
}

/// The failure report of a driver installation, with the installer's
/// error output.
pub fn tap_install_failure(stderr: &str) -> (res: String)
    ensures
        res@ == "TAP 驱动安装失败: "@ + stderr@,
{
    let mut r = "TAP 驱动安装失败: ".to_string();
    r.append(stderr);
    r
}

/// The message shown when the driver could not be installed: run as
/// administrator, then the error.
pub fn install_error_message(detail: &str) -> (res: String)
    ensures
        res@ == "自动安装虚拟网卡失败，请右键 anyn2n.exe 选择\"以管理员身份运行\"。\n\n错误信息: "@ + detail@,
{
    let mut r = "自动安装虚拟网卡失败，请右键 anyn2n.exe 选择\"以管理员身份运行\"。\n\n错误信息: ".to_string();
    r.append(detail);
    r
}

/// The PowerShell command that shows `msg` in an error message box titled
/// `AnyN2N`; `msg` stands quoted, its own quotes doubled.
pub fn message_box_command(msg: &str) -> (res: String)
    ensures
        res@ == "Add-Type -AssemblyName PresentationFramework; [System.Windows.MessageBox]::Show('"@
            + quote_doubled(msg@) + "', 'AnyN2N', 'OK', 'Error')"@,
{
    let mut r = "Add-Type -AssemblyName PresentationFramework; [System.Windows.MessageBox]::Show('".to_string();
    let q = double_single_quotes(msg);
    r.append(q.as_str());
    r.append("', 'AnyN2N', 'OK', 'Error')");
    r
}

} // verus!
