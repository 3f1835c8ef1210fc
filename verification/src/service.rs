use vstd::prelude::*;

verus! {

/// The text of a systemd unit for one service of an application, run as
/// `user` from the application's home directory, with output appended to its
/// log file.
pub open spec fn systemd_unit_text(
    app_name: Seq<char>,
    service_name: Seq<char>,
    user: Seq<char>,
) -> Seq<char> {
    "[Unit]\nDescription="@ + app_name + " "@ + service_name
        + "\nAfter=network.target\nStartLimitIntervalSec=0\n\n[Service]\nType=simple\nRestart=always\nRestartSec=1\nWorkingDirectory=/home/"@
        + user + "/"@ + app_name + "\nExecStart=/home/"@ + user + "/"@ + app_name + "/bin/"@
        + service_name + " --config=etc/config.json\n\nStandardError=append:/home/"@ + user + "/"@
        + app_name + "/log/"@ + app_name + "_"@ + service_name
        + ".log\nStandardOutput=append:/home/"@ + user + "/"@ + app_name + "/log/"@ + app_name
        + "_"@ + service_name + ".log\nStandardInput=null\n\n[Install]\nWantedBy=default.target\n\n"@
}

/// Renders the systemd unit for one service.
pub fn get_systemd_service(app_name: &str, service_name: &str, user: &str) -> (r: String)
    ensures
        r@ == systemd_unit_text(app_name@, service_name@, user@),
{
    let mut s = String::from_str("[Unit]\nDescription=");
    s.append(app_name);
    s.append(" ");
    s.append(service_name);
    s.append(
        "\nAfter=network.target\nStartLimitIntervalSec=0\n\n[Service]\nType=simple\nRestart=always\nRestartSec=1\nWorkingDirectory=/home/",
    );
    s.append(user);
    s.append("/");
    s.append(app_name);
    s.append("\nExecStart=/home/");
    s.append(user);
    s.append("/");
    s.append(app_name);
    s.append("/bin/");
    s.append(service_name);
    s.append(" --config=etc/config.json\n\nStandardError=append:/home/");
    s.append(user);
    s.append("/");
    s.append(app_name);
    s.append("/log/");
    s.append(app_name);
    s.append("_");
    s.append(service_name);
    s.append(".log\nStandardOutput=append:/home/");
    s.append(user);
    s.append("/");
    s.append(app_name);
    s.append("/log/");
    s.append(app_name);
    s.append("_");
    s.append(service_name);
    s.append(".log\nStandardInput=null\n\n[Install]\nWantedBy=default.target\n\n");
    s
}

} // verus!
