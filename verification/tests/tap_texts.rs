use anyn2n::tap::{double_single_quotes, install_error_message, message_box_command, tap_install_failure};

#[test]
fn quotes_are_doubled() {
    assert_eq!(double_single_quotes("it's 'x'"), "it''s ''x''");
    assert_eq!(double_single_quotes(""), "");
    assert_eq!(double_single_quotes("none"), "none");
}

#[test]
fn install_texts() {
    assert_eq!(tap_install_failure("code 5"), "TAP 驱动安装失败: code 5");
    assert_eq!(
        install_error_message("denied"),
        "自动安装虚拟网卡失败，请右键 anyn2n.exe 选择\"以管理员身份运行\"。\n\n错误信息: denied"
    );
    assert_eq!(
        message_box_command("can't"),
        "Add-Type -AssemblyName PresentationFramework; [System.Windows.MessageBox]::Show('can''t', 'AnyN2N', 'OK', 'Error')"
    );
}
