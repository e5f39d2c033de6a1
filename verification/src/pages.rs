//! The pages that consist of a drawing.

use vstd::prelude::*;

verus! {

/// Answers a second submission of one user.
pub const CAUGHT: &'static str = r#"

⠀⠀⠀⠀⠀⠀⠀⠀⠀⠀⠀⠀⠀⠀⠀⠀⠀⠀⠀⠀⠀⠀⠀⠀⠀⠀⠀⠀⠀⠀⠀⠀⠀⠀⠀⠀⠀⠀⠀⠀⠀⠀⠀⠀⠀⠀⠀⠀⠀⠀⠀⠀⢀⡀⠀⠀⠀⠀⠀⠀⠀⠀⠀⠀
⠀⠀⠀⠀⠀⠀⠀⠀⠀⠀⠀⠀⠀⠀⠀⠀⠀⠀⠀⠀⠀⠀⠀⠀⠀⠀⠀⠀⠀⠀⠀⠀⠀⠀⠀⠀⠀⠀⠀⠀⠀⠀⠀⠀⠀⠀⠀⢀⣠⡶⠟⣛⣽⣿⣧⠀⠀⠀⠀⠀⠀⠀⠀⠀
⠀⠀⠀⠀⠀⠀⠀⠀⠀⠀⠀⠀⠀⠀⠀⠀⠀⠀⠀⠀⠀⠀⠀⠀⠀⠀⠀⠀⠀⠀⠀⠀⠀⠀⠀⠀⠀⠀⠀⠀⠀⠀⣠⡤⠤⢤⡴⠛⠁⠀⣴⠋⠱⣿⣿⡆⠀⠀⠀⠀⠀⠀⠀⠀
⠀⠀⠀⠀⠀⠀⠀⠀⠀⠀⠀⠀⠀⠀⠀⠀⠀⠀⠀⠀⠀⠀⠀⠀⠀⠀⠀⠀⠀⠀⠀⠀⣴⣶⠶⠶⠶⣤⣤⡶⠶⠾⠋⠀⠀⠈⠀⠀⠀⢰⣧⣀⣰⣟⠙⣷⠀⠀⠀⠀⠀⠀⠀⠀
⠀⠀⠀⠀⠀⠀⠀⠀⠀⠀⠀⠀⠀⠀⠀⠀⠀⠀⠀⠀⠀⠀⠀⠀⠀⠀⠀⠀⠀⠀⠀⢠⣿⡟⠳⣄⡴⠋⠁⠀⠀⠀⠀⠀⠀⠀⠀⠀⠀⠈⠙⢾⣿⣛⡀⣿⠀⠀⠀⠀⠀KID UR CAUGHT!!⠀⠀⠀
⠀⠀⠀⠀⠀⠀⠀⠀⠀⠀⠀⠀⠀⠀⠀⠀⠀⠀⠀⠀⠀⠀⠀⠀⠀⠀⠀⠀⠀⠀⠀⠛⣿⣏⣠⡟⠁⠀⠀⢀⣴⡀⠀⡀⠀⣤⣄⠀⢤⣀⠀⠈⠁⠈⠳⣿⡀⠀⠀⠀⠀U THINK U CAN SUBMIT TWO TIMES IN A ROW ?!⠀⠀⠀
⠀⠀⠀⠀⠀⠀⠀⠀⠀⠀⠀⢀⡀⠀⠀⠀⠀⠀⠀⠀⠀⠀⠀⠀⠀⠀⠀⠀⠀⠀⠀⠀⠿⣿⡟⣼⣷⣴⣶⣿⠁⢹⡄⠻⣶⣿⣯⣀⡀⣿⣷⠀⠀⠀⢀⡈⢿⣄⠀⠀⠀DONT THINK U CAN DO THAT WITH ME >:3⠀⠀⠀
⠀⠀⠀⠀⠀⠀⣀⣀⣀⣀⡀⡿⠋⢻⠻⠶⣤⣀⠀⠀⠀⠀⠀⠀⠀⠀⠀⠀⠀⠀⠀⠀⠀⣹⣿⣿⣿⣿⣼⠹⣦⣧⣿⣆⠙⠛⣯⡻⠿⣆⠈⠁⠀⠀⠈⠙⣮⡿⣦⣀⠀⠀⠀⠀
⠀⠀⠀⠀⢀⣾⣿⣥⣴⣭⣿⣷⣤⣼⢴⣒⡮⣽⡻⢦⡄⠀⠀⠀⠀⠀⠀⠀⠀⠀⠀⠀⢀⡟⣼⣿⣿⠉⢿⣇⠙⠋⢹⣯⣄⠀⣘⣿⣦⣼⣷⣤⠀⠀⣀⠀⠈⢿⡦⢿⣷⡦⠀⠀
⠀⠀⠀⠀⣾⢹⣿⣿⣿⣿⣿⡿⢿⣿⣿⣿⣿⣾⡿⡟⠻⢶⣤⣀⠀⠀⠀⠀⠀⠀⠀⠀⣾⠟⣿⣿⣇⣀⣼⣿⣦⡀⠀⣿⣿⣿⣿⡏⠁⠀⠀⠙⢷⠀⠙⡆⠀⠘⣷⠀⠀⠀⠀⠀
⠀⣀⣤⠤⠿⠸⣿⣿⣿⣿⡿⠁⣿⣿⣿⣿⣿⣿⡇⣿⠃⠰⠀⠉⡛⠳⠶⣤⣀⣀⠀⠀⠀⢰⣿⣿⠿⠛⣿⣿⠻⢿⣶⡿⠋⢿⣿⡧⠀⠀⠀⢀⡾⠀⠀⢻⢦⣄⣻⣧⠀⠀⠀⠀
⣼⣿⣿⣿⣿⣦⡈⠙⠛⠉⠀⠀⠘⣿⣿⣿⣿⡿⣵⣃⡀⠀⠀⠀⠀⠀⠀⠒⠿⣿⣿⣶⣤⣼⡏⢻⣄⠀⢻⣿⠀⢀⡿⠳⣄⣈⣛⣃⣀⣤⠶⢿⡄⠀⠀⢸⣼⣯⠛⠛⠛⠀⠀⠀
⣿⣿⣿⣿⣿⣿⡇⣠⣴⣶⣶⣶⣦⡀⠉⠉⠁⣈⣭⣍⣙⢷⣶⠶⢶⣦⣤⣄⣀⣀⠀⠉⠙⠛⠿⢿⣿⣷⣶⣗⢺⣏⣰⣦⣤⣽⠟⠉⠉⠀⠀⣸⢿⣶⣄⣸⡏⠛⠓⠀⠀⠀⠀⠀
⣿⣿⣿⣿⣿⡿⣿⣿⣿⣿⣿⣿⣿⣿⣆⠀⣾⣿⣿⣿⣿⣷⣼⣇⠀⠀⠀⠀⠈⠉⠉⠛⠛⠷⠶⠶⠤⣭⣝⣿⣿⣿⣷⣯⣉⣹⡇⠀⣀⣠⡾⢻⣿⣿⡍⠛⠷⠀⠀⠀⠀⠀⠀⠀
⠙⠿⣿⣿⣯⠄⡏⣿⣿⣿⣿⣿⣿⣿⣿⠘⣿⣿⣿⣿⣿⣿⣇⡿⠀⠀⠀⠀⠀⠀⠀⠀⠀⠀⠀⠀⡀⠀⠀⠉⣩⡿⠛⢿⣿⣿⣶⣟⣩⣿⠗⠈⠀⠈⣿⠀⠀⠀⠀⠀⠀⠀⠀⠀
⠀⠀⠀⠀⢸⣇⣿⣿⣿⣿⣿⣿⣿⣿⡿⢠⣿⣿⣿⣿⡿⢏⣾⠓⠀⢀⣀⣀⣀⣠⣤⣤⣤⣴⣶⣶⣷⡶⠶⠾⠛⠀⠀⠀⠹⡏⠻⢿⣯⣾⣯⣀⠀⠀⣿⠀⣠⡶⠶⠾⣷⣦⡀⠀
⠀⠀⠀⠀⠈⢻⣮⡿⣿⣿⣿⣿⣿⠟⢁⣾⣙⣿⣿⣶⣾⣟⣛⣿⣭⠭⠿⠶⠾⠛⠛⠛⠉⠉⠁⢸⡁⣀⠀⠀⠀⠀⠀⠀⠀⡇⠀⠀⠈⠻⣿⡟⠷⣰⣿⠀⠻⠷⢤⣤⣀⠙⣧⡀
⠀⠀⠀⠀⠀⠀⠙⠻⣮⣍⣉⣩⣥⡶⠿⠛⠛⠛⠛⠋⠉⠉⠀⠀⠀⠀⠀⠀⠀⠀⠀⠀⠀⠀⠀⠘⣿⣽⣗⡀⠀⠀⠀⢀⣾⡇⠀⠀⠀⠀⠈⠃⣰⢿⡇⠀⠀⠀⠀⠈⠻⣇⠘⣧
⠀⠀⠀⠀⠀⠀⠀⠀⠀⠉⠉⠉⠀⠀⠀⠀⠀⠀⠀⠀⠀⠀⠀⠀⠀⠀⠀⠀⠀⠀⠀⠀⠀⠀⠀⠀⠈⠛⠿⠿⢤⡶⣶⣿⣿⣷⣶⣤⡤⠶⠶⠞⠋⣾⠀⠀⠀⠀⠀⠀⠀⢻⠀⢻⣾
⠀⠀⠀⠀⠀⠀⠀⠀⠀⠀⠀⠀⠀⠀⠀⠀⠀⠀⠀⠀⠀⠀⠀⠀⠀⠀⠀⠀⠀⠀⠀⠀⠀⠀⠀⠀⠀⠀⠀⠀⢀⣰⠏⣧⣀⣀⣀⣀⡀⠀⠀⠀⠠⣿⡀⠀⠀⠀⠀⠀⠀⣼⠀⣸⣿
⠀⠀⠀⠀⠀⠀⠀⠀⠀⠀⠀⠀⠀⠀⠀⠀⠀⠀⠀⠀⠀⠀⠀⠀⠀⠀⠀⠀⠀⠀⠀⠀⠀⠀⠀⠀⠀⠀⠀⠀⢸⣿⣤⣿⣭⡉⠉⠙⠛⣃⣠⣤⣶⣿⣧⡀⠀⠀⠀⣠⡼⠃⢠⡟
⠀⠀⠀⠀⠀⠀⠀⠀⠀⠀⠀⠀⠀⠀⠀⠀⠀⠀⠀⠀⠀⠀⠀⠀⠀⠀⠀⠀⠀⠀⠀⠀⠀⠀⠀⠀⠀⠀⠀⢠⣿⣿⣿⣿⠿⠛⠛⠛⠻⠿⣿⡿⠲⣿⣿⣝⣛⠚⠋⠉⣀⣴⠟⠀
⠀⠀⠀⠀⠀⠀⠀⠀⠀⠀⠀⠀⠀⠀⠀⠀⠀⠀⠀⠀⠀⠀⠀⠀⠀⠀⠀⠀⠀⠀⠀⠀⠀⠀⠀⠀⠀⠀⢀⣾⣿⣿⣿⡇⠀⠀⠀⠀⠀⠀⠈⠁⠀⠸⢻⣿⡛⠛⠛⠋⠉⠀⠀⠀
                "#;

/// Answers a submission.
pub const THANKS: &'static str = r#"
                       ⠀⠀⠀⠀⢠⡶⠚⢷⣤⡀⠀⠀⠀⠀⠀⣲⡶⠛⠻⣆⠀⠀⠀⠀⠀⠀⠀⠀⠀⠀
                       ⠀⠀⠀⢠⡿⠁⠀⠀⠙⣷⣄⠀⢀⣴⡟⠁⠀⠀⢷⢹⡆⠀⠀⠀⠀⠀⠀⠀⠀⠀
     Thank you         ⠀⠀⠀⣾⠃⠀⠠⠶⠚⠛⠛⠛⠛⠋⠀⠀⣀⡀⢸⠈⣿⠀⠀⠀⠀⠀⠀⠀⠀⠀
     For Submitting !  ⠀⠀⢸⣏⡔⠋⠀⠀⠀⠀⠀⠀⠀⠀⠀⠚⠉⠉⣿⠀⢹⠀⠀⠀⠀⠀⠀⠀⠀⠀
                       ⠀⠀⢾⠏⠀⠀⠀⠀⠀⠀⠀⠀⠀⠀⠀⠀⠀⠀⠸⠀⢸⡇⠀⠀⠀⠀⠀⠀⠀⠀
                       ⠀⢠⣿⢠⣶⡆⠀⠀⠀⠀⣀⣀⠀⠀⠀⠀⠀⠀⠀⠀⢸⡇⠀⠀⠀⠀⠀⠀⠀⠀
                       ⢒⡾⠁⠘⠟⠁⠀⠀⠀⠀⣿⣿⡆⠀⠀⠀⠀⠀⠀⠀⢸⡇⠀⠀⠀⠀⠀⠀⠀⠀
                       ⠉⣧⠀⠀⠀⠀⠃⠀⠀⠀⠈⠉⠠⣍⠀⠀⠀⠀⠀⠀⣸⡇⢀⣤⠶⠛⠛⠻⢦⣄
                       ⠀⠸⣧⡀⠀⠀⠀⠀⠀⠀⠀⠀⠀⠀⠀⠀⠀⠀⠀⣰⡟⣴⠟⠁⠀⠀⠀⠀⠀⢻
                       ⠀⠀⠀⠛⣷⡦⠀⠀⠀⠀⠀⠀⠀⠀⣀⣀⣤⡴⠞⠋⢠⡟⠀⠀⠀⠀⠀⠀⢀⡾
                       ⠀⠀⠀⢰⡿⠀⠀⠀⠀⠀⠀⠀⠀⠀⠀⠀⠉⠳⣤⡀⢸⠃⠀⠀⠀⠀⢠⡶⠟⠁
                       ⠀⠀⠀⣸⠇⠀⠀⠀⠀⠀⠀⠀⠀⠀⠀⠀⠀⠀⠘⢷⣹⡄⠀⠀⠀⠀⣼⠀⠀⠀
                       ⠀⠀⠀⣿⠀⠀⠀⠀⠀⠀⠀⠀⠀⠀⠀⠀⠀⠀⠀⠈⢿⣇⠀⠀⠀⠀⢹⡄⠀⠀
                       ⠀⠀⠀⢸⡀⢀⠀⠀⠀⠀⠀⠀⠀⠀⠀⠀⠀⠀⠀⠀⠈⣿⡄⠀⠀⠀⠈⣧⠀⠀
                       ⠀⠀⠀⢸⡇⠘⡇⠀⠀⠀⠀⠀⠀⠀⣀⠀⠀⠀⠀⠀⠀⢸⣿⠀⠀⠀⠀⢹⡇⠀
                       ⠀⠀⠀⢸⡇⠀⠙⠀⠀⠀⠀⠀⢠⠞⠁⠀⠀⠀⠀⠀⠀⠀⣿⠇⠀⠀⠀⢸⡇⠀
                       ⠀⠀⠀⢸⡇⠀⢸⡆⠀⠀⠀⠀⣟⠀⠀⠀⠀⠀⠀⠀⠀⠀⠛⠀⠀⠀⠀⣸⠇⠀
                       ⠀⠀⠀⢸⣿⠀⠀⡇⠀⠀⠀⠀⣿⡀⠀⠀⠀⠀⠀⠀⠀⢀⡇⠀⠀⢀⣴⡟⠁⠀
                       ⠀⠀⠀⠘⠿⠶⢶⢧⣦⣦⡴⢾⣥⣽⣤⣤⣤⣤⣤⣤⡴⣯⡤⠴⠶⠛⠋⠀⠀⠀
        "#;

/// The page that every failure leads to.
pub const SAD_CAT: &'static str = r#"           _______
　　　　　 /  ＞　　フ This cat is sad cuz it doesnt know what made you come here..
　　　　　| 　_　 _ l     Would you pat the cat?
　 　　　／` ミ＿xノ  
　　 　 /　　　 　 |
　　　 /　 ヽ　　 ﾉ
　 　 │　　|　|　|
　／￣|　　 |　|　|
　| (￣ヽ＿_ヽ_)__)
　＼二つ

"#;

/// The page that every failure leads to.
pub fn err() -> (page: &'static str)
    ensures
        page@ == SAD_CAT@,
{
    SAD_CAT
}

} // verus!
