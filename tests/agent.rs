use am_presence::agent::{launch_agent_plist, AGENT_ID};

#[test]
fn plist_names_executable_and_log() {
    let expected = [
        "<?xml version=\"1.0\" encoding=\"UTF-8\"?>\n",
        "<!DOCTYPE plist PUBLIC \"-//Apple Computer//DTD PLIST 1.0//EN\" \"http://www.apple.com/DTDs/PropertyList-1.0.dtd\">\n",
        "<plist version=\"1.0\">\n",
        "<dict>\n",
        "\t<key>KeepAlive</key>\n",
        "\t<true/>\n",
        "\t<key>Label</key>\n",
        "\t<string>dev.ryanccn.am.discord</string>\n",
        "\t<key>ProgramArguments</key>\n",
        "\t<array>\n",
        "\t\t<string>/usr/local/bin/am</string>\n",
        "\t\t<string>discord</string>\n",
        "\t</array>\n",
        "\t<key>RunAtLoad</key>\n",
        "\t<true/>\n",
        "    <key>StandardOutPath</key>\n",
        "\t<string>/Users/me/Library/Logs/am-discord.log</string>\n",
        "\t<key>StandardErrorPath</key>\n",
        "\t<string>/Users/me/Library/Logs/am-discord.log</string>\n",
        "</dict>\n",
        "</plist>\n",
    ]
    .concat();
    assert_eq!(
        launch_agent_plist("/usr/local/bin/am", "/Users/me/Library/Logs/am-discord.log"),
        expected
    );
    assert_eq!(AGENT_ID, "dev.ryanccn.am.discord");
}
