use cgrustplot::helper::charset::gradient_chars::ascii_chars;
use cgrustplot::helper::charset::gradient_chars::ascii_chars_large;
use cgrustplot::helper::charset::gradient_chars::binary_chars;
use cgrustplot::helper::charset::gradient_chars::shade_chars;
use cgrustplot::helper::charset::subdiv_chars::blocks_two_by_three;
use cgrustplot::helper::charset::subdiv_chars::blocks_two_by_two;
use cgrustplot::helper::charset::subdiv_chars::dots_one_by_one;
use cgrustplot::helper::charset::subdiv_chars::dots_two_by_four;

#[test]
fn gradient_char_sets() {
    assert_eq!(binary_chars(), vec![" ", "█"]);
    assert_eq!(shade_chars(), vec![" ", "░", "▒", "▓", "█"]);
    assert_eq!(ascii_chars(), vec![" ", ".", ":", "-", "=", "+", "*", "#", "%", "@"]);
    assert_eq!(ascii_chars_large().len(), 70);
    assert_eq!(ascii_chars_large()[69], "$");
}

#[test]
fn subdiv_char_sets() {
    assert_eq!(dots_one_by_one(), vec![' ', '●']);
    assert_eq!(blocks_two_by_two().len(), 16);
    assert_eq!(blocks_two_by_two()[15], '█');
    assert_eq!(dots_two_by_four().len(), 256);
    assert_eq!(dots_two_by_four()[0], '⠀');
    assert_eq!(dots_two_by_four()[255], '⣿');
    assert_eq!(blocks_two_by_three().len(), 64);
}
